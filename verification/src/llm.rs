//! Asking a language model for a plan: the settings, the prompts, and what becomes of a reply.
//!
//! The request over the network and the decoding of JSON happen elsewhere; here is what is sent
//! and what is made of what comes back.

use vstd::prelude::*;

use crate::error;
use crate::error::{ErrorView, LokinError};
use crate::session;
use crate::session::{
    Checkpoint, CheckpointView, Plan, PlanItem, PlanItemView, ProjectionView, SessionProjection,
};
use crate::text;
use crate::time;
use crate::time::Duration;

verus! {

/// The environment variable that holds the key to the model's provider.
pub const API_KEY_ENV: &'static str = "GROQ_API_KEY";

/// The environment variable that names the model.
pub const MODEL_ENV: &'static str = "LOKIN_LLM_MODEL";

/// The environment variable that says where the provider is found.
pub const BASE_URL_ENV: &'static str = "LOKIN_LLM_BASE_URL";

/// Where the provider is found unless the environment says otherwise.
pub const DEFAULT_BASE_URL: &'static str = "https://api.groq.com/openai/v1";

/// The settings for the model. The key is private, and the type has no `Debug`, so that it does
/// not end up in a log by accident.
pub struct LlmConfig {
    api_key: String,
    model: String,
    base_url: String,
}

/// The model of [`LlmConfig`].
pub struct LlmConfigView {
    pub api_key: Seq<char>,
    pub model: Seq<char>,
    pub base_url: Seq<char>,
}

impl View for LlmConfig {
    type V = LlmConfigView;

    closed spec fn view(&self) -> LlmConfigView {
        LlmConfigView { api_key: self.api_key@, model: self.model@, base_url: self.base_url@ }
    }
}

impl LlmConfigView {
    /// Where plans are asked for.
    pub open spec fn endpoint(self) -> Seq<char> {
        self.base_url + "/chat/completions"@
    }
}

/// What a variable that must be set stands for: its value without the white space around it.
pub open spec fn required_setting(name: Seq<char>, value: Option<Seq<char>>) -> Result<
    Seq<char>,
    ErrorView,
> {
    match value {
        None => Err(
            ErrorView::LlmConfiguration("Set "@ + name + " before using LLM planning."@),
        ),
        Some(value) => if text::blank(value) {
            Err(
                ErrorView::LlmConfiguration(
                    "Set "@ + name + " to a non-empty value before using LLM planning."@,
                ),
            )
        } else {
            Ok(text::trimmed(value))
        },
    }
}

/// Where the provider is found: the value of the variable, or else the default, without white
/// space around it and slashes behind it.
pub open spec fn base_url_setting(value: Option<Seq<char>>) -> Seq<char> {
    text::without_slashes(
        text::trimmed(
            match value {
                Some(value) => value,
                None => DEFAULT_BASE_URL@,
            },
        ),
    )
}

/// The settings that the values of the three variables stand for. The key is asked for first, then
/// the name of the model.
pub open spec fn configured(
    api_key: Option<Seq<char>>,
    model: Option<Seq<char>>,
    base_url: Option<Seq<char>>,
) -> Result<LlmConfigView, ErrorView> {
    match required_setting(API_KEY_ENV@, api_key) {
        Err(e) => Err(e),
        Ok(api_key) => match required_setting(MODEL_ENV@, model) {
            Err(e) => Err(e),
            Ok(model) => if base_url_setting(base_url).len() == 0 {
                Err(
                    ErrorView::LlmConfiguration(
                        BASE_URL_ENV@ + " cannot be empty when set."@,
                    ),
                )
            } else {
                Ok(LlmConfigView { api_key, model, base_url: base_url_setting(base_url) })
            },
        },
    }
}

/// What a variable that must be set stands for.
pub fn required_environment(name: &str, value: Option<&str>) -> (res: Result<String, LokinError>)
    ensures
        error::result_view(res) == required_setting(name@, text::optional_text(value)),
{
    match value {
        None => Err(
            LokinError::LlmConfiguration(
                "Set ".to_owned().concat(name).concat(" before using LLM planning."),
            ),
        ),
        Some(value) => {
            let trimmed = text::trim(value);
            proof {
                text::trimming_is_stable(value@);
            }
            if trimmed.as_str().is_empty() {
                Err(
                    LokinError::LlmConfiguration(
                        "Set ".to_owned().concat(name).concat(
                            " to a non-empty value before using LLM planning.",
                        ),
                    ),
                )
            } else {
                Ok(trimmed)
            }
        },
    }
}

impl LlmConfig {
    /// The settings that the values of `GROQ_API_KEY`, `LOKIN_LLM_MODEL` and `LOKIN_LLM_BASE_URL`
    /// stand for.
    pub fn from_values(api_key: Option<&str>, model: Option<&str>, base_url: Option<&str>) -> (res:
        Result<LlmConfig, LokinError>)
        ensures
            error::result_view(res) == configured(
                text::optional_text(api_key),
                text::optional_text(model),
                text::optional_text(base_url),
            ),
    {
        let api_key = required_environment(API_KEY_ENV, api_key)?;
        let model = required_environment(MODEL_ENV, model)?;
        let given = match base_url {
            Some(value) => value,
            None => DEFAULT_BASE_URL,
        };
        let base_url = text::strip_slashes(text::trim(given).as_str());
        if base_url.as_str().is_empty() {
            return Err(
                LokinError::LlmConfiguration(
                    BASE_URL_ENV.to_owned().concat(" cannot be empty when set."),
                ),
            );
        }
        Ok(LlmConfig { api_key, model, base_url })
    }

    /// The name of the model.
    pub fn model(&self) -> (res: &str)
        ensures
            res@ == self@.model,
    {
        self.model.as_str()
    }

    /// The key to the provider.
    pub fn api_key(&self) -> (res: &str)
        ensures
            res@ == self@.api_key,
    {
        self.api_key.as_str()
    }

    /// Where plans are asked for.
    pub fn endpoint(&self) -> (res: String)
        ensures
            res@ == self@.endpoint(),
    {
        self.base_url.clone().concat("/chat/completions")
    }
}

/// What is said to the model.
#[derive(Debug, PartialEq, Eq)]
pub struct InferenceRequest {
    pub system_prompt: String,
    pub user_prompt: String,
}

/// The model of [`InferenceRequest`].
pub struct RequestView {
    pub system_prompt: Seq<char>,
    pub user_prompt: Seq<char>,
}

impl View for InferenceRequest {
    type V = RequestView;

    open spec fn view(&self) -> RequestView {
        RequestView { system_prompt: self.system_prompt@, user_prompt: self.user_prompt@ }
    }
}

impl Clone for InferenceRequest {
    fn clone(&self) -> (res: InferenceRequest)
        ensures
            res@ == self@,
    {
        InferenceRequest {
            system_prompt: self.system_prompt.clone(),
            user_prompt: self.user_prompt.clone(),
        }
    }
}

/// What the model said.
#[derive(Debug, PartialEq, Eq)]
pub struct InferenceResponse {
    pub content: String,
}

impl View for InferenceResponse {
    type V = Seq<char>;

    open spec fn view(&self) -> Seq<char> {
        self.content@
    }
}

impl Clone for InferenceResponse {
    fn clone(&self) -> (res: InferenceResponse)
        ensures
            res@ == self@,
    {
        InferenceResponse { content: self.content.clone() }
    }
}

/// One of the messages that a provider offers in its reply.
#[derive(Debug)]
pub struct AssistantMessage {
    pub content: Option<String>,
    pub refusal: Option<String>,
}

/// The model of [`AssistantMessage`].
pub struct MessageView {
    pub content: Option<Seq<char>>,
    pub refusal: Option<Seq<char>>,
}

impl View for AssistantMessage {
    type V = MessageView;

    open spec fn view(&self) -> MessageView {
        MessageView {
            content: session::optional_view(self.content),
            refusal: session::optional_view(self.refusal),
        }
    }
}

/// The error for a request that never got a reply.
pub open spec fn failed_request(timed_out: bool, error: Seq<char>) -> ErrorView {
    ErrorView::LlmInference(
        if timed_out {
            "request timed out after 45 seconds"@
        } else {
            "request could not be sent: "@ + error
        },
    )
}

/// The error for a request that never got a reply.
pub fn request_failed(timed_out: bool, error: &str) -> (res: LokinError)
    ensures
        res@ == failed_request(timed_out, error@),
{
    if timed_out {
        LokinError::LlmInference("request timed out after 45 seconds".to_owned())
    } else {
        LokinError::LlmInference("request could not be sent: ".to_owned().concat(error))
    }
}

/// The HTTP status is one of success.
pub open spec fn is_success(status: u16) -> bool {
    200 <= status < 300
}

/// Rejects a reply whose HTTP status is not one of success.
pub fn check_status(status: u16) -> (res: Result<(), LokinError>)
    ensures
        res is Ok <==> is_success(status),
        res matches Err(e) ==> e@ == ErrorView::LlmInference(
            "Groq returned HTTP "@ + text::decimal(status as nat) + "."@,
        ),
{
    if status < 200 || status >= 300 {
        return Err(
            LokinError::LlmInference(
                "Groq returned HTTP ".to_owned().concat(
                    text::decimal_text(status as u128).as_str(),
                ).concat("."),
            ),
        );
    }
    Ok(())
}

/// What the model said, in the messages of a reply, or in what was wrong with its JSON: the content
/// of the first message, unless the model declined or said nothing.
pub open spec fn completion(reply: Result<Seq<MessageView>, Seq<char>>) -> Result<
    Seq<char>,
    ErrorView,
> {
    match reply {
        Err(error) => Err(
            ErrorView::LlmInference("response was not valid JSON: "@ + error),
        ),
        Ok(messages) => if messages.len() == 0 {
            Err(ErrorView::LlmInference("response did not contain a completion choice"@))
        } else {
            match (messages[0].refusal, messages[0].content) {
                (Some(refusal), _) => Err(
                    ErrorView::LlmInference("model declined the request: "@ + refusal),
                ),
                (None, None) => Err(
                    ErrorView::LlmInference("response did not contain plan content"@),
                ),
                (None, Some(content)) => if text::blank(content) {
                    Err(ErrorView::LlmInference("response contained empty plan content"@))
                } else {
                    Ok(content)
                },
            }
        },
    }
}

/// The model of a reply.
pub open spec fn reply_view(reply: Result<Vec<AssistantMessage>, String>) -> Result<
    Seq<MessageView>,
    Seq<char>,
> {
    match reply {
        Ok(messages) => Ok(session::views(messages@)),
        Err(error) => Err(error@),
    }
}

/// What the model said in a reply.
pub fn read_completion(reply: Result<Vec<AssistantMessage>, String>) -> (res: Result<
    InferenceResponse,
    LokinError,
>)
    ensures
        error::result_view(res) == completion(reply_view(reply)),
{
    let mut messages = match reply {
        Ok(messages) => messages,
        Err(error) => {
            return Err(
                LokinError::LlmInference(
                    "response was not valid JSON: ".to_owned().concat(error.as_str()),
                ),
            );
        },
    };
    if messages.len() == 0 {
        return Err(
            LokinError::LlmInference("response did not contain a completion choice".to_owned()),
        );
    }
    let ghost first = session::views(messages@)[0];
    let message = messages.remove(0);
    assert(message@ == first);
    match message.refusal {
        Some(refusal) => {
            return Err(
                LokinError::LlmInference(
                    "model declined the request: ".to_owned().concat(refusal.as_str()),
                ),
            );
        },
        None => {},
    }
    match message.content {
        None => Err(LokinError::LlmInference("response did not contain plan content".to_owned())),
        Some(content) => {
            if text::is_blank(content.as_str()) {
                Err(LokinError::LlmInference("response contained empty plan content".to_owned()))
            } else {
                Ok(InferenceResponse { content })
            }
        },
    }
}

/// Whether a plan is too long for a span of `remaining` nanoseconds.
pub open spec fn exceeds(plan: Seq<PlanItemView>, remaining: int) -> bool {
    session::total_minutes(plan) * time::MINUTE > remaining
}

/// What stands against a plan of the model when `remaining` nanoseconds are left.
pub open spec fn budget_fault(plan: Seq<PlanItemView>, remaining: int) -> Option<ErrorView> {
    match session::plan_fault(plan) {
        Some(e) => Some(
            ErrorView::LlmInference("model response contained an invalid plan: "@ + e.message()),
        ),
        None => if exceeds(plan, remaining) {
            Some(
                ErrorView::LlmInference(
                    "model plan totals "@ + text::decimal(session::total_minutes(plan))
                        + " minutes, exceeding the remaining wall-clock time"@,
                ),
            )
        } else {
            None
        },
    }
}

/// Rejects a plan that is not valid or does not fit into the time that is left.
pub fn validate_plan_fits_budget(plan: &Plan, remaining_wall_clock: Duration) -> (res: Result<
    (),
    LokinError,
>)
    ensures
        res is Ok <==> budget_fault(plan@, remaining_wall_clock@) is None,
        res matches Err(e) ==> budget_fault(plan@, remaining_wall_clock@) == Some(e@),
{
    match session::validate_plan(plan) {
        Ok(()) => {},
        Err(e) => {
            return Err(
                LokinError::LlmInference(
                    "model response contained an invalid plan: ".to_owned().concat(
                        e.message().as_str(),
                    ),
                ),
            );
        },
    }
    let total_minutes: u128 = plan.total_minutes();
    if total_minutes as i128 * time::MINUTE > remaining_wall_clock.nanos {
        return Err(
            LokinError::LlmInference(
                "model plan totals ".to_owned().concat(
                    text::decimal_text(total_minutes).as_str(),
                ).concat(" minutes, exceeding the remaining wall-clock time"),
            ),
        );
    }
    Ok(())
}

/// What a plan of the model must be: decoded, not empty, valid, and not too long. The decoding is
/// given as the plan, or as what was wrong with it.
pub open spec fn generated_plan(
    decoded: Result<Seq<PlanItemView>, Seq<char>>,
    remaining: int,
) -> Result<Seq<PlanItemView>, ErrorView> {
    match decoded {
        Err(error) => Err(
            ErrorView::LlmInference("model response did not match the plan schema: "@ + error),
        ),
        Ok(plan) => if plan.len() == 0 {
            Err(ErrorView::LlmInference("model response contained an empty plan"@))
        } else {
            match budget_fault(plan, remaining) {
                Some(e) => Err(e),
                None => Ok(plan),
            }
        },
    }
}

/// The model of a decoded plan.
pub open spec fn decoded_view(decoded: Result<Plan, String>) -> Result<
    Seq<PlanItemView>,
    Seq<char>,
> {
    match decoded {
        Ok(plan) => Ok(plan@),
        Err(error) => Err(error@),
    }
}

/// Accepts a plan of the model, or says what stands against it.
pub fn check_generated_plan(
    decoded: Result<Plan, String>,
    remaining_wall_clock: Duration,
) -> (res: Result<Plan, LokinError>)
    ensures
        error::result_view(res) == generated_plan(
            decoded_view(decoded),
            remaining_wall_clock@,
        ),
{
    let plan = match decoded {
        Ok(plan) => plan,
        Err(error) => {
            return Err(
                LokinError::LlmInference(
                    "model response did not match the plan schema: ".to_owned().concat(
                        error.as_str(),
                    ),
                ),
            );
        },
    };
    if plan.items.len() == 0 {
        return Err(LokinError::LlmInference("model response contained an empty plan".to_owned()));
    }
    match validate_plan_fits_budget(&plan, remaining_wall_clock) {
        Ok(()) => Ok(plan),
        Err(e) => Err(e),
    }
}

/// The request that tells the model what was wrong with its first plan.
pub open spec fn corrective(request: RequestView, rejection: ErrorView) -> RequestView {
    RequestView {
        system_prompt: request.system_prompt,
        user_prompt: request.user_prompt + "\n\nYour previous response was rejected: "@
            + rejection.message() + CORRECTION@,
    }
}

/// The end of the request that asks for a corrected plan.
pub const CORRECTION: &'static str = ". \\\n                     Return a corrected plan that exactly matches the required JSON schema \\\n                     and fits the stated remaining wall-clock time.";

/// The request that tells the model what was wrong with its first plan.
pub fn corrective_request(request: &InferenceRequest, rejection: &LokinError) -> (res:
    InferenceRequest)
    ensures
        res@ == corrective(request@, rejection@),
{
    InferenceRequest {
        system_prompt: request.system_prompt.clone(),
        user_prompt: request.user_prompt.clone().concat(
            "\n\nYour previous response was rejected: ",
        ).concat(rejection.message().as_str()).concat(CORRECTION),
    }
}

/// What comes next in asking for a plan.
pub enum InferenceStep {
    /// Send this request to the model, and hand in what comes of it.
    Ask(InferenceRequest),
    /// The plan is found.
    Accepted(Plan),
    /// There is no plan.
    Failed(LokinError),
}

/// The model of [`InferenceStep`].
pub enum InferenceStepView {
    Ask(RequestView),
    Accepted(Seq<PlanItemView>),
    Failed(ErrorView),
}

impl View for InferenceStep {
    type V = InferenceStepView;

    open spec fn view(&self) -> InferenceStepView {
        match self {
            InferenceStep::Ask(request) => InferenceStepView::Ask(request@),
            InferenceStep::Accepted(plan) => InferenceStepView::Accepted(plan@),
            InferenceStep::Failed(e) => InferenceStepView::Failed(e@),
        }
    }
}

/// What comes of a request to the model.
pub enum Reply {
    /// There was no reply, or none with a content.
    Failed(LokinError),
    /// The plan that the content decodes to, or what was wrong with it.
    Decoded(Result<Plan, String>),
}

/// The model of [`Reply`].
pub enum ReplyView {
    Failed(ErrorView),
    Decoded(Result<Seq<PlanItemView>, Seq<char>>),
}

impl View for Reply {
    type V = ReplyView;

    open spec fn view(&self) -> ReplyView {
        match self {
            Reply::Failed(e) => ReplyView::Failed(e@),
            Reply::Decoded(decoded) => ReplyView::Decoded(decoded_view(*decoded)),
        }
    }
}

/// The asking for one plan: a first request, and one more if the first plan is rejected.
pub struct PlanInference {
    request: InferenceRequest,
    remaining_wall_clock: Duration,
    corrected: bool,
}

/// The model of [`PlanInference`].
pub struct PlanInferenceView {
    pub request: RequestView,
    pub remaining_wall_clock: int,
    /// The first plan was rejected.
    pub corrected: bool,
}

impl View for PlanInference {
    type V = PlanInferenceView;

    closed spec fn view(&self) -> PlanInferenceView {
        PlanInferenceView {
            request: self.request@,
            remaining_wall_clock: self.remaining_wall_clock@,
            corrected: self.corrected,
        }
    }
}

impl PlanInferenceView {
    /// What comes after a reply: a failed request ends the asking, and so does a plan that is
    /// accepted; a plan that is rejected is asked for once more.
    pub open spec fn step(self, reply: ReplyView) -> InferenceStepView {
        match reply {
            ReplyView::Failed(e) => InferenceStepView::Failed(e),
            ReplyView::Decoded(decoded) => match generated_plan(
                decoded,
                self.remaining_wall_clock,
            ) {
                Ok(plan) => InferenceStepView::Accepted(plan),
                Err(rejection) => if self.corrected {
                    InferenceStepView::Failed(rejection)
                } else {
                    InferenceStepView::Ask(corrective(self.request, rejection))
                },
            },
        }
    }

    /// The asking after a reply.
    pub open spec fn next(self, reply: ReplyView) -> PlanInferenceView {
        PlanInferenceView { corrected: self.corrected || self.step(reply) is Ask, ..self }
    }
}

impl PlanInference {
    /// Begins to ask for a plan that fits into `remaining_wall_clock`: with `request`.
    pub fn begin(request: &InferenceRequest, remaining_wall_clock: Duration) -> (res: (
        PlanInference,
        InferenceStep,
    ))
        ensures
            res.0@ == (PlanInferenceView {
                request: request@,
                remaining_wall_clock: remaining_wall_clock@,
                corrected: false,
            }),
            res.1@ == InferenceStepView::Ask(request@),
    {
        let asking = PlanInference {
            request: request.clone(),
            remaining_wall_clock,
            corrected: false,
        };
        (asking, InferenceStep::Ask(request.clone()))
    }

    /// Takes in what came of the last request.
    pub fn receive(&mut self, reply: Reply) -> (res: InferenceStep)
        ensures
            res@ == old(self)@.step(reply@),
            final(self)@ == old(self)@.next(reply@),
    {
        let decoded = match reply {
            Reply::Failed(e) => {
                return InferenceStep::Failed(e);
            },
            Reply::Decoded(decoded) => decoded,
        };
        match check_generated_plan(decoded, self.remaining_wall_clock) {
            Ok(plan) => InferenceStep::Accepted(plan),
            Err(rejection) => {
                if self.corrected {
                    InferenceStep::Failed(rejection)
                } else {
                    self.corrected = true;
                    InferenceStep::Ask(corrective_request(&self.request, &rejection))
                }
            },
        }
    }
}

/// What the model is told of its task.
pub const SYSTEM_PROMPT: &'static str = "You create concise task-agnostic Lokin plans. A Lokin deadline is immutable: pauses never extend it. Return only JSON that conforms to the supplied schema. Every plan item must have a clear description, a positive whole-minute duration, and a valid status. The total duration must fit the stated remaining hard wall-clock time.";

/// What the model is told of its task.
pub fn planning_system_prompt() -> (res: String)
    ensures
        res@ == SYSTEM_PROMPT@,
{
    SYSTEM_PROMPT.to_owned()
}

/// The line of a prompt that passes on the user's context; none, if there is nothing in it.
pub open spec fn context_line(context: Option<Seq<char>>) -> Seq<char> {
    match context {
        Some(value) if !text::blank(value) => "Additional context: "@ + text::trimmed(value)
            + "\n"@,
        _ => seq![],
    }
}

/// The line of a prompt that passes on the user's context.
pub fn optional_context(context: Option<&str>) -> (res: String)
    ensures
        res@ == context_line(text::optional_text(context)),
{
    match context {
        Some(value) => {
            if text::is_blank(value) {
                String::new()
            } else {
                "Additional context: ".to_owned().concat(text::trim(value).as_str()).concat("\n")
            }
        },
        None => String::new(),
    }
}

/// The lines of a prompt that pass on what the user wants changed.
pub open spec fn feedback_lines(feedback: Seq<Seq<char>>) -> Seq<char> {
    if feedback.len() == 0 {
        seq![]
    } else {
        "Refinement feedback:\n"@ + text::joined(feedback, "\n"@) + "\n"@
    }
}

/// The lines of a prompt that pass on what the user wants changed.
pub fn feedback_section(feedback: &[String]) -> (res: String)
    ensures
        res@ == feedback_lines(text::texts(feedback@)),
{
    if feedback.len() == 0 {
        String::new()
    } else {
        "Refinement feedback:\n".to_owned().concat(text::join(feedback, "\n").as_str()).concat("\n")
    }
}

/// The request for a first plan.
pub open spec fn initial_request(
    goal: Seq<char>,
    duration_minutes: u16,
    context: Option<Seq<char>>,
    feedback: Seq<Seq<char>>,
) -> RequestView {
    RequestView {
        system_prompt: SYSTEM_PROMPT@,
        user_prompt: "Create an initial Lokin plan.\nGoal: "@ + goal
            + "\nHard wall-clock budget: "@ + text::decimal(duration_minutes as nat)
            + " minutes\n"@ + context_line(context) + feedback_lines(feedback),
    }
}

/// The request for a first plan.
pub fn initial_plan_request(
    goal: &str,
    duration_minutes: u16,
    context: Option<&str>,
    feedback: &[String],
) -> (res: InferenceRequest)
    ensures
        res@ == initial_request(
            goal@,
            duration_minutes,
            text::optional_text(context),
            text::texts(feedback@),
        ),
{
    InferenceRequest {
        system_prompt: planning_system_prompt(),
        user_prompt: "Create an initial Lokin plan.\nGoal: ".to_owned().concat(goal).concat(
            "\nHard wall-clock budget: ",
        ).concat(text::decimal_text(duration_minutes as u128).as_str()).concat(" minutes\n").concat(
            optional_context(context).as_str(),
        ).concat(feedback_section(feedback).as_str()),
    }
}

/// A character as it stands inside a JSON string.
pub open spec fn json_escaped(c: char) -> Seq<char> {
    if c == '"' {
        "\\\""@
    } else if c == '\\' {
        "\\\\"@
    } else if c as u32 == 0x08 {
        "\\b"@
    } else if c as u32 == 0x09 {
        "\\t"@
    } else if c as u32 == 0x0a {
        "\\n"@
    } else if c as u32 == 0x0c {
        "\\f"@
    } else if c as u32 == 0x0d {
        "\\r"@
    } else if (c as u32) < 0x20 {
        "\\u00"@ + session::hex(c as nat, 2)
    } else {
        seq![c]
    }
}

/// The characters of `s` as they stand inside a JSON string.
pub open spec fn json_contents(s: Seq<char>) -> Seq<char>
    decreases s.len(),
{
    if s.len() == 0 {
        seq![]
    } else {
        json_contents(s.drop_last()) + json_escaped(s.last())
    }
}

/// `s` as a JSON string.
pub open spec fn json_string(s: Seq<char>) -> Seq<char> {
    "\""@ + json_contents(s) + "\""@
}

/// Calls `serde_json::to_string` on a string: quotation marks around it, and inside it a backslash
/// before quotation marks and backslashes and the escapes of JSON for control characters.
#[verifier::external_body]
fn string_to_json(s: &str) -> (res: String)
    ensures
        res@ == json_string(s@),
{
    serde_json::to_string(s).unwrap()
}

/// A step of a plan as JSON.
pub open spec fn item_json(item: PlanItemView) -> Seq<char> {
    "{\"description\":"@ + json_string(item.description) + ",\"duration_minutes\":"@
        + text::decimal(item.duration_minutes as nat) + ",\"status\":\""@ + item.status.spec_name()
        + "\"}"@
}

/// A plan as JSON, without white space.
pub open spec fn plan_json(plan: Seq<PlanItemView>) -> Seq<char> {
    "{\"items\":["@ + text::joined(
        Seq::new(plan.len(), |i: int| item_json(plan[i])),
        ","@,
    ) + "]}"@
}

/// A step of a plan as JSON.
fn item_to_json(item: &PlanItem) -> (res: String)
    ensures
        res@ == item_json(item@),
{
    "{\"description\":".to_owned().concat(
        string_to_json(item.description.as_str()).as_str(),
    ).concat(",\"duration_minutes\":").concat(
        text::decimal_text(item.duration_minutes as u128).as_str(),
    ).concat(",\"status\":\"").concat(item.status.name()).concat("\"}")
}

/// A plan as JSON, without white space.
pub fn plan_to_json(plan: &Plan) -> (res: String)
    ensures
        res@ == plan_json(plan@),
{
    let mut items: Vec<String> = Vec::new();
    let mut i: usize = 0;
    while i < plan.items.len()
        invariant
            i <= plan.items.len(),
            items.len() == i,
            forall|j: int| 0 <= j < i ==> (#[trigger] items@[j])@ == item_json(plan@[j]),
        decreases plan.items.len() - i,
    {
        items.push(item_to_json(&plan.items[i]));
        i = i + 1;
    }
    assert(text::texts(items@) =~= Seq::new(plan@.len(), |i: int| item_json(plan@[i])));
    "{\"items\":[".to_owned().concat(text::join(items.as_slice(), ",").as_str()).concat("]}")
}

/// The JSON schema that a plan of the model must conform to.
pub const PLAN_SCHEMA: &'static str = "{\"additionalProperties\":false,\"properties\":{\"items\":{\"items\":{\"additionalProperties\":false,\"properties\":{\"description\":{\"minLength\":1,\"type\":\"string\"},\"duration_minutes\":{\"minimum\":1,\"type\":\"integer\"},\"status\":{\"enum\":[\"pending\",\"active\",\"completed\",\"skipped\"],\"type\":\"string\"}},\"required\":[\"description\",\"duration_minutes\",\"status\"],\"type\":\"object\"},\"minItems\":1,\"type\":\"array\"}},\"required\":[\"items\"],\"type\":\"object\"}";

/// What is posted to the provider, as JSON: the model, the two prompts, how freely and how much the
/// model may answer, and the schema of its answer.
pub open spec fn completion_request_json(model: Seq<char>, request: RequestView) -> Seq<char> {
    "{\"model\":"@ + json_string(model) + ",\"messages\":[{\"role\":\"system\",\"content\":"@
        + json_string(request.system_prompt) + "},{\"role\":\"user\",\"content\":"@ + json_string(
        request.user_prompt,
    ) + "}],\"temperature\":0.2,\"max_completion_tokens\":1024,\"stream\":false"@
        + ",\"response_format\":{\"type\":\"json_schema\",\"json_schema\":{\"name\":\"lokin_plan\""@
        + ",\"strict\":true,\"schema\":"@ + PLAN_SCHEMA@ + "}}}"@
}

/// What is posted to the provider.
pub fn completion_request(model: &str, request: &InferenceRequest) -> (res: String)
    ensures
        res@ == completion_request_json(model@, request@),
{
    let mut res = "{\"model\":".to_owned();
    res.append(string_to_json(model).as_str());
    res.append(",\"messages\":[{\"role\":\"system\",\"content\":");
    res.append(string_to_json(request.system_prompt.as_str()).as_str());
    res.append("},{\"role\":\"user\",\"content\":");
    res.append(string_to_json(request.user_prompt.as_str()).as_str());
    res.append("}],\"temperature\":0.2,\"max_completion_tokens\":1024,\"stream\":false");
    res.append(
        ",\"response_format\":{\"type\":\"json_schema\",\"json_schema\":{\"name\":\"lokin_plan\"",
    );
    res.append(",\"strict\":true,\"schema\":");
    res.append(PLAN_SCHEMA);
    res.append("}}}");
    res
}

/// The checkpoints as the model is told of them, one to a line, with the texts for their instants.
pub open spec fn checkpoint_lines(
    checkpoints: Seq<CheckpointView>,
    instants: Seq<Seq<char>>,
) -> Seq<char> {
    if checkpoints.len() == 0 {
        "none"@
    } else {
        text::joined(
            Seq::new(checkpoints.len(), |i: int| instants[i] + ": "@ + checkpoints[i].note),
            "\n"@,
        )
    }
}

/// The checkpoints as the model is told of them.
fn checkpoint_section(checkpoints: &Vec<Checkpoint>, instants: &[String]) -> (res: String)
    requires
        checkpoints.len() == instants.len(),
    ensures
        res@ == checkpoint_lines(session::views(checkpoints@), text::texts(instants@)),
{
    if checkpoints.len() == 0 {
        return "none".to_owned();
    }
    let ghost all = session::views(checkpoints@);
    let ghost at = text::texts(instants@);
    let mut lines: Vec<String> = Vec::new();
    let mut i: usize = 0;
    while i < checkpoints.len()
        invariant
            i <= checkpoints.len(),
            checkpoints.len() == instants.len(),
            all == session::views(checkpoints@),
            at == text::texts(instants@),
            lines.len() == i,
            forall|j: int| 0 <= j < i ==> (#[trigger] lines@[j])@ == at[j] + ": "@ + all[j].note,
        decreases checkpoints.len() - i,
    {
        lines.push(instants[i].clone().concat(": ").concat(checkpoints[i].note.as_str()));
        i = i + 1;
    }
    assert(text::texts(lines@) =~= Seq::new(all.len(), |i: int| at[i] + ": "@ + all[i].note));
    text::join(lines.as_slice(), "\n")
}

/// The instants of checkpoints, with all of their digits.
pub open spec fn instants_of(checkpoints: Seq<CheckpointView>) -> Seq<Seq<char>> {
    Seq::new(checkpoints.len(), |i: int| time::full_instant(checkpoints[i].occurred_at))
}

/// The instants of checkpoints, with all of their digits.
fn full_instants(checkpoints: &Vec<Checkpoint>) -> (res: Vec<String>)
    ensures
        text::texts(res@) == instants_of(session::views(checkpoints@)),
{
    let mut res: Vec<String> = Vec::new();
    let mut i: usize = 0;
    while i < checkpoints.len()
        invariant
            i <= checkpoints.len(),
            res.len() == i,
            forall|j: int|
                0 <= j < i ==> (#[trigger] res@[j])@ == time::full_instant(
                    checkpoints@[j]@.occurred_at,
                ),
        decreases checkpoints.len() - i,
    {
        res.push(time::format_full_timestamp(checkpoints[i].occurred_at));
        i = i + 1;
    }
    assert(text::texts(res@) =~= instants_of(session::views(checkpoints@)));
    res
}

/// The request for a plan that replaces the one of the session.
pub open spec fn revision_request(
    projection: ProjectionView,
    context: Option<Seq<char>>,
    feedback: Seq<Seq<char>>,
) -> RequestView
    recommends
        projection.current_plan is Some,
{
    revision_request_at(projection, instants_of(projection.checkpoints), context, feedback)
}

/// The request for a plan that replaces the one of the session, with the texts for the instants of
/// its checkpoints.
pub open spec fn revision_request_at(
    projection: ProjectionView,
    instants: Seq<Seq<char>>,
    context: Option<Seq<char>>,
    feedback: Seq<Seq<char>>,
) -> RequestView
    recommends
        projection.current_plan is Some,
        projection.checkpoints.len() == instants.len(),
{
    RequestView {
        system_prompt: SYSTEM_PROMPT@,
        user_prompt: "Revise this active Lokin plan as a complete replacement snapshot.\nGoal: "@
            + projection.metadata.goal + "\nSession budget: "@ + text::decimal(
            projection.metadata.duration_minutes as nat,
        ) + " minutes\nRemaining hard wall-clock time: "@ + text::decimal(
            time::seconds_of(projection.remaining_wall_clock),
        ) + " seconds\nActive work: "@ + text::decimal(
            time::seconds_of(projection.active_work_duration),
        ) + " seconds\nPaused time: "@ + text::decimal(
            time::seconds_of(projection.paused_duration),
        ) + " seconds\nCurrent plan JSON: "@ + plan_json(projection.current_plan->0)
            + "\nCheckpoints:\n"@ + checkpoint_lines(projection.checkpoints, instants) + "\n"@
            + context_line(context) + feedback_lines(feedback),
    }
}

/// The request for a plan that replaces the one of the session.
pub fn revision_plan_request(
    projection: &SessionProjection,
    context: Option<&str>,
    feedback: &[String],
) -> (res: InferenceRequest)
    requires
        projection.current_plan is Some,
    ensures
        res@ == revision_request(
            projection@,
            text::optional_text(context),
            text::texts(feedback@),
        ),
{
    let instants = full_instants(&projection.checkpoints);
    assert(text::texts(instants@).len() == projection.checkpoints.len());
    describe_revision(projection, instants.as_slice(), context, feedback)
}

/// The request for a plan that replaces the one of the session, with the texts for the instants of
/// its checkpoints.
pub fn describe_revision(
    projection: &SessionProjection,
    instants: &[String],
    context: Option<&str>,
    feedback: &[String],
) -> (res: InferenceRequest)
    requires
        projection.current_plan is Some,
        projection.checkpoints.len() == instants.len(),
    ensures
        res@ == revision_request_at(
            projection@,
            text::texts(instants@),
            text::optional_text(context),
            text::texts(feedback@),
        ),
{
    let plan_json = match &projection.current_plan {
        Some(plan) => plan_to_json(plan),
        None => String::new(),
    };
    let checkpoints = checkpoint_section(&projection.checkpoints, instants);
    let mut prompt = "Revise this active Lokin plan as a complete replacement snapshot.\nGoal: ".to_owned();
    prompt.append(projection.metadata.goal.as_str());
    prompt.append("\nSession budget: ");
    prompt.append(text::decimal_text(projection.metadata.duration_minutes as u128).as_str());
    prompt.append(" minutes\nRemaining hard wall-clock time: ");
    prompt.append(text::decimal_text(projection.remaining_wall_clock.whole_seconds()).as_str());
    prompt.append(" seconds\nActive work: ");
    prompt.append(text::decimal_text(projection.active_work_duration.whole_seconds()).as_str());
    prompt.append(" seconds\nPaused time: ");
    prompt.append(text::decimal_text(projection.paused_duration.whole_seconds()).as_str());
    prompt.append(" seconds\nCurrent plan JSON: ");
    prompt.append(plan_json.as_str());
    prompt.append("\nCheckpoints:\n");
    prompt.append(checkpoints.as_str());
    prompt.append("\n");
    prompt.append(optional_context(context).as_str());
    prompt.append(feedback_section(feedback).as_str());
    InferenceRequest { system_prompt: planning_system_prompt(), user_prompt: prompt }
}

/// The settings are complete exactly if the key and the model are set to something that is not
/// blank, and the address, if it is set, is more than white space and slashes. They are kept without
/// white space around them, and the address without slashes at its end; unset, it is the provider's
/// own. The first thing that is missing is told, the key before the model.
pub proof fn when_the_settings_are_complete(
    api_key: Option<Seq<char>>,
    model: Option<Seq<char>>,
    base_url: Option<Seq<char>>,
)
    ensures
        ({
            let missing = |name: Seq<char>, value: Option<Seq<char>>|
                ErrorView::LlmConfiguration(
                    "Set "@ + name + if value is None {
                        " before using LLM planning."@
                    } else {
                        " to a non-empty value before using LLM planning."@
                    },
                );
            let given = |value: Option<Seq<char>>| value is Some && !text::blank(value->0);
            let address = text::without_slashes(
                text::trimmed(
                    if base_url is Some {
                        base_url->0
                    } else {
                        "https://api.groq.com/openai/v1"@
                    },
                ),
            );
            configured(api_key, model, base_url) == if !given(api_key) {
                Err(missing("GROQ_API_KEY"@, api_key))
            } else if !given(model) {
                Err(missing("LOKIN_LLM_MODEL"@, model))
            } else if address.len() == 0 {
                Err(
                    ErrorView::LlmConfiguration(
                        "LOKIN_LLM_BASE_URL"@ + " cannot be empty when set."@,
                    ),
                )
            } else {
                Ok(
                    LlmConfigView {
                        api_key: text::trimmed(api_key->0),
                        model: text::trimmed(model->0),
                        base_url: address,
                    },
                )
            }
        }),
{
}

/// A reply counts exactly if its first message is no refusal and has a content that is not blank;
/// then the content is handed on as it is, whatever other messages there are. Otherwise what is
/// wrong with it is told.
pub proof fn when_a_reply_counts(messages: Seq<MessageView>, reason: Seq<char>)
    ensures
        ({
            let failed = |what: Seq<char>| Err::<Seq<char>, _>(ErrorView::LlmInference(what));
            &&& completion(Err(reason)) == failed("response was not valid JSON: "@ + reason)
            &&& completion(Ok(messages)) == if messages.len() == 0 {
                failed("response did not contain a completion choice"@)
            } else if messages[0].refusal is Some {
                failed("model declined the request: "@ + messages[0].refusal->0)
            } else if messages[0].content is None {
                failed("response did not contain plan content"@)
            } else if text::blank(messages[0].content->0) {
                failed("response contained empty plan content"@)
            } else {
                Ok(messages[0].content->0)
            }
        }),
{
}

/// What is said of a plan of the model that is not accepted: that it could not be decoded and why,
/// that it is empty, what is wrong with its first unsound step, or how long it is.
pub proof fn what_is_said_of_a_rejected_plan(
    plan: Seq<PlanItemView>,
    remaining: int,
    reason: Seq<char>,
)
    ensures
        ({
            let rejected = |what: Seq<char>|
                Err::<Seq<PlanItemView>, _>(ErrorView::LlmInference(what));
            let total = plan.fold_left(
                0int,
                |sum: int, item: PlanItemView| sum + item.duration_minutes,
            );
            &&& generated_plan(Err(reason), remaining) == rejected(
                "model response did not match the plan schema: "@ + reason,
            )
            &&& generated_plan(Ok(plan), remaining) == if plan.len() == 0 {
                rejected("model response contained an empty plan"@)
            } else if session::plan_fault(plan) is Some {
                rejected(
                    "model response contained an invalid plan: "@ + session::plan_fault(
                        plan,
                    )->0.message(),
                )
            } else if total * 60_000_000_000 > remaining {
                rejected(
                    "model plan totals "@ + text::decimal(total as nat)
                        + " minutes, exceeding the remaining wall-clock time"@,
                )
            } else {
                Ok(plan)
            }
        }),
{
    session::a_plan_takes_as_long_as_its_steps(plan, Seq::empty());
}

/// What the model is told for a first plan: the goal, the budget, the context unless it is blank,
/// and all that the user wants changed, in its order.
pub proof fn what_the_model_is_told_first(
    goal: Seq<char>,
    duration_minutes: u16,
    context: Option<Seq<char>>,
    feedback: Seq<Seq<char>>,
)
    ensures
        initial_request(goal, duration_minutes, context, feedback).system_prompt == SYSTEM_PROMPT@,
        initial_request(goal, duration_minutes, context, feedback).user_prompt
            == "Create an initial Lokin plan.\nGoal: "@ + goal + "\nHard wall-clock budget: "@
            + text::decimal(duration_minutes as nat) + " minutes\n"@ + (if context is Some
            && !text::blank(context->0) {
            "Additional context: "@ + text::trimmed(context->0) + "\n"@
        } else {
            Seq::empty()
        }) + (if feedback.len() > 0 {
            "Refinement feedback:\n"@ + text::joined(feedback, "\n"@) + "\n"@
        } else {
            Seq::empty()
        }),
{
}

/// What the model is told for another plan: the session with its times in whole seconds, the plan
/// as it is, every note with its instant, the context unless it is blank, and all that the user
/// wants changed, in its order.
pub proof fn what_the_model_is_told_of_a_session(
    p: ProjectionView,
    plan: Seq<PlanItemView>,
    context: Option<Seq<char>>,
    feedback: Seq<Seq<char>>,
)
    requires
        p.current_plan == Some(plan),
    ensures
        revision_request(p, context, feedback).system_prompt == SYSTEM_PROMPT@,
        revision_request(p, context, feedback).user_prompt
            == "Revise this active Lokin plan as a complete replacement snapshot.\nGoal: "@
            + p.metadata.goal + "\nSession budget: "@ + text::decimal(
            p.metadata.duration_minutes as nat,
        ) + " minutes\nRemaining hard wall-clock time: "@ + text::decimal(
            time::seconds_of(p.remaining_wall_clock),
        ) + " seconds\nActive work: "@ + text::decimal(time::seconds_of(p.active_work_duration))
            + " seconds\nPaused time: "@ + text::decimal(time::seconds_of(p.paused_duration))
            + " seconds\nCurrent plan JSON: "@ + plan_json(plan) + "\nCheckpoints:\n"@ + (
        if p.checkpoints.len() == 0 {
            "none"@
        } else {
            text::joined(
                Seq::new(
                    p.checkpoints.len(),
                    |i: int|
                        time::full_instant(p.checkpoints[i].occurred_at) + ": "@
                            + p.checkpoints[i].note,
                ),
                "\n"@,
            )
        }) + "\n"@ + (if context is Some && !text::blank(context->0) {
            "Additional context: "@ + text::trimmed(context->0) + "\n"@
        } else {
            Seq::empty()
        }) + (if feedback.len() > 0 {
            "Refinement feedback:\n"@ + text::joined(feedback, "\n"@) + "\n"@
        } else {
            Seq::empty()
        }),
{
    assert(Seq::new(
        p.checkpoints.len(),
        |i: int| instants_of(p.checkpoints)[i] + ": "@ + p.checkpoints[i].note,
    ) =~= Seq::new(
        p.checkpoints.len(),
        |i: int| time::full_instant(p.checkpoints[i].occurred_at) + ": "@ + p.checkpoints[i].note,
    ));
}

/// A plan as JSON holds every step in its place, with its description, minutes and status.
pub proof fn every_step_stands_in_the_json(plan: Seq<PlanItemView>, item: PlanItemView)
    ensures
        plan_json(Seq::empty()) == "{\"items\":["@ + Seq::empty() + "]}"@,
        ({
            let step = "{\"description\":"@ + json_string(item.description)
                + ",\"duration_minutes\":"@ + text::decimal(item.duration_minutes as nat)
                + ",\"status\":\""@ + item.status.spec_name() + "\"}"@;
            let opening = "{\"items\":["@;
            let closing = "]}"@;
            plan_json(plan.push(item)) == opening + (if plan.len() == 0 {
                step
            } else {
                plan_json(plan).subrange(
                    opening.len() as int,
                    plan_json(plan).len() - closing.len(),
                ) + ","@ + step
            }) + closing
        }),
{
    let opening = "{\"items\":["@;
    let closing = "]}"@;
    let steps = Seq::new(plan.len(), |i: int| item_json(plan[i]));
    let longer = plan.push(item);
    let all = Seq::new(longer.len(), |i: int| item_json(longer[i]));
    assert(all =~= steps.push(item_json(item)));
    text::joining_puts_the_separator_between(steps, item_json(item), ","@);
    let none = Seq::<PlanItemView>::empty();
    assert(Seq::new(none.len(), |i: int| item_json(none[i])) =~= Seq::<Seq<char>>::empty());
    if plan.len() == 0 {
        assert(all =~= seq![item_json(item)]);
    } else {
        assert(plan_json(plan).subrange(
            opening.len() as int,
            plan_json(plan).len() - closing.len(),
        ) =~= text::joined(steps, ","@));
    }
}

/// A text as a JSON string holds its characters one by one, in their order, between quotation
/// marks. A character stands for itself unless it is a quotation mark, a backslash, or a control
/// character.
pub proof fn every_character_stands_in_the_json(s: Seq<char>, more: Seq<char>, c: char)
    ensures
        json_string(s) == "\""@ + json_contents(s) + "\""@,
        json_contents(s + more) == json_contents(s) + json_contents(more),
        json_contents(seq![c]) == json_escaped(c),
        c as u32 >= 0x20 && c != '"' && c != '\\' ==> json_escaped(c) == seq![c],
        json_escaped('"') == "\\\""@,
        json_escaped('\\') == "\\\\"@,
        json_escaped('\n') == "\\n"@,
    decreases more.len(),
{
    let none = seq![c].drop_last();
    assert(none =~= Seq::<char>::empty());
    assert(json_contents(none) == Seq::<char>::empty());
    assert(seq![c].last() == c);
    assert(json_contents(none) + json_escaped(c) =~= json_escaped(c));
    if more.len() == 0 {
        assert(s + more =~= s);
        assert(json_contents(s) + json_contents(more) =~= json_contents(s));
    } else {
        every_character_stands_in_the_json(s, more.drop_last(), c);
        assert((s + more).drop_last() =~= s + more.drop_last());
        assert(json_contents(s + more) =~= json_contents(s) + json_contents(more));
    }
}

/// What is posted to the provider holds the model and both prompts as they are.
pub proof fn what_is_posted(model: Seq<char>, request: RequestView)
    ensures
        completion_request_json(model, request) == "{\"model\":"@ + json_string(model)
            + ",\"messages\":[{\"role\":\"system\",\"content\":"@ + json_string(
            request.system_prompt,
        ) + "},{\"role\":\"user\",\"content\":"@ + json_string(request.user_prompt)
            + "}],\"temperature\":0.2,\"max_completion_tokens\":1024,\"stream\":false"@
            + ",\"response_format\":{\"type\":\"json_schema\",\"json_schema\":{\"name\":\"lokin_plan\""@
            + ",\"strict\":true,\"schema\":"@ + PLAN_SCHEMA@ + "}}}"@,
{
}

/// A status tells of success exactly if it is one of the two hundreds.
pub proof fn the_two_hundreds_are_success(status: u16)
    ensures
        is_success(status) <==> status / 100 == 2,
{
}

/// A request goes to the completions of the provider's address. One that gets no reply fails with
/// its own reason, unless it took too long.
pub proof fn where_a_request_goes(config: LlmConfigView, reason: Seq<char>)
    ensures
        text::has_prefix(config.endpoint(), config.base_url),
        config.endpoint().skip(config.base_url.len() as int) == "/chat/completions"@,
        failed_request(true, reason) == ErrorView::LlmInference(
            "request timed out after 45 seconds"@,
        ),
        failed_request(false, reason) == ErrorView::LlmInference(
            "request could not be sent: "@ + reason,
        ),
{
    assert(config.endpoint().take(config.base_url.len() as int) =~= config.base_url);
    assert(config.endpoint().skip(config.base_url.len() as int) =~= "/chat/completions"@);
}

/// What every request tells the model of its task: that the deadline stands, what to answer with,
/// and that it must fit. A request for a corrected plan is the first one, with what was wrong and
/// what is wanted behind it.
pub proof fn what_the_model_is_told_of_its_task(request: RequestView, rejection: ErrorView)
    ensures
        SYSTEM_PROMPT@ == "You create concise task-agnostic Lokin plans. A Lokin deadline is immutable: pauses never extend it. Return only JSON that conforms to the supplied schema. Every plan item must have a clear description, a positive whole-minute duration, and a valid status. The total duration must fit the stated remaining hard wall-clock time."@,
        corrective(request, rejection) == (RequestView {
            system_prompt: request.system_prompt,
            user_prompt: request.user_prompt + "\n\nYour previous response was rejected: "@
                + rejection.message()
                + ". \\\n                     Return a corrected plan that exactly matches the required JSON schema \\\n                     and fits the stated remaining wall-clock time."@,
        }),
{
}

} // verus!
