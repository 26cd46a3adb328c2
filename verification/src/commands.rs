//! The commands of the user: what each of them appends to the log, and when it is refused.
//!
//! A command that is refused appends nothing.

use vstd::prelude::*;

use crate::error;
use crate::error::{ErrorView, LokinError};
use crate::llm;
use crate::replay;
use crate::session;
use crate::session::{
    EffectiveState, EventView, Plan, PlanItem, PlanItemStatus, PlanItemView, PlanSource,
    PlanSourceView, ProjectionView, SessionEvent, SessionId, SessionProjection, StoredEvent,
    StoredEventView,
};
use crate::text;
use crate::time;
use crate::time::{Duration, Instant, Timestamp};

verus! {

/// The sessions that still run or wait.
pub open spec fn active_sessions(sessions: Seq<ProjectionView>) -> Seq<ProjectionView> {
    sessions.filter(|p: ProjectionView| p.effective_state.active())
}

/// The active session, if there is one. There must not be two.
pub open spec fn sole_active(sessions: Seq<ProjectionView>) -> Result<
    Option<ProjectionView>,
    ErrorView,
> {
    let active = active_sessions(sessions);
    if active.len() == 0 {
        Ok(None)
    } else if active.len() == 1 {
        Ok(Some(active[0]))
    } else {
        Err(ErrorView::CorruptLog("more than one session is currently active"@))
    }
}

/// The active session, which there must be.
pub open spec fn required_active(sessions: Seq<ProjectionView>) -> Result<
    ProjectionView,
    ErrorView,
> {
    match sole_active(sessions) {
        Err(e) => Err(e),
        Ok(None) => Err(ErrorView::NoActiveSession),
        Ok(Some(p)) => Ok(p),
    }
}

/// The model of a session that was looked for.
pub open spec fn found_view(res: Result<Option<&SessionProjection>, LokinError>) -> Result<
    Option<ProjectionView>,
    ErrorView,
> {
    match res {
        Ok(Some(p)) => Ok(Some(p@)),
        Ok(None) => Ok(None),
        Err(e) => Err(e@),
    }
}

/// The active session, if there is one. Two of them are a fault of the log.
pub fn active_projection(projections: &[SessionProjection]) -> (res: Result<
    Option<&SessionProjection>,
    LokinError,
>)
    ensures
        found_view(res) == sole_active(session::views(projections@)),
{
    let ghost all = session::views(projections@);
    let ghost active = |p: ProjectionView| p.effective_state.active();
    let mut first: Option<&SessionProjection> = None;
    let mut i: usize = 0;
    assert(all.take(0) =~= seq![]);
    assert(all.take(0).filter(active) =~= seq![]) by {
        reveal(Seq::filter);
    }
    while i < projections.len()
        invariant
            i <= projections.len(),
            all == session::views(projections@),
            active == (|p: ProjectionView| p.effective_state.active()),
            match first {
                None => all.take(i as int).filter(active) == Seq::<ProjectionView>::empty(),
                Some(p) => all.take(i as int).filter(active) == seq![p@],
            },
        decreases projections.len() - i,
    {
        let ghost next = all.take(i + 1);
        proof {
            assert(next.drop_last() =~= all.take(i as int));
            assert(next.last() == projections@[i as int]@);
            reveal(Seq::filter);
        }
        if projections[i].effective_state.is_active() {
            if first.is_some() {
                proof {
                    assert(next.filter(active).len() == 2);
                    assert(all =~= next + all.skip(i + 1));
                    Seq::filter_distributes_over_add(next, all.skip(i + 1), active);
                }
                return Err(
                    LokinError::CorruptLog("more than one session is currently active".to_owned()),
                );
            }
            first = Some(&projections[i]);
            assert(next.filter(active) =~= seq![projections@[i as int]@]);
        }
        i = i + 1;
    }
    assert(all.take(i as int) =~= all);
    Ok(first)
}

/// The active session, which there must be.
pub fn require_active_projection(projections: &[SessionProjection]) -> (res: Result<
    &SessionProjection,
    LokinError,
>)
    ensures
        error::result_view(res) == required_active(session::views(projections@)),
{
    match active_projection(projections) {
        Err(e) => Err(e),
        Ok(None) => Err(LokinError::NoActiveSession),
        Ok(Some(p)) => Ok(p),
    }
}

/// The active session of a log at the instant `now`.
pub open spec fn current(events: Seq<StoredEventView>, now: Instant) -> Result<
    ProjectionView,
    ErrorView,
> {
    match replay::reconstructed(events, now) {
        Err(e) => Err(e),
        Ok(sessions) => required_active(sessions),
    }
}

/// What a command does to the log, and what the user is told of it.
#[derive(Debug)]
pub struct Outcome {
    /// The session that the command is about.
    pub session_id: SessionId,
    /// When the command took effect.
    pub occurred_at: Timestamp,
    /// The events that go to the end of the log.
    pub appended: Vec<StoredEvent>,
    /// The new plan, where the command changed it by hand.
    pub plan_change: Option<PlanMutationResult>,
}

/// The model of [`Outcome`].
pub struct OutcomeView {
    pub session_id: SessionId,
    pub occurred_at: Instant,
    pub appended: Seq<StoredEventView>,
    pub plan_change: Option<PlanMutationView>,
}

impl View for Outcome {
    type V = OutcomeView;

    open spec fn view(&self) -> OutcomeView {
        OutcomeView {
            session_id: self.session_id,
            occurred_at: self.occurred_at@,
            appended: session::views(self.appended@),
            plan_change: session::optional_view(self.plan_change),
        }
    }
}

/// A plan that was changed by hand, and the time that there is for it.
#[derive(Debug)]
pub struct PlanMutationResult {
    pub plan: Plan,
    /// Whether this is the first plan of its session.
    pub created: bool,
    pub session_budget_minutes: u16,
    pub remaining_wall_clock: Duration,
}

/// The model of [`PlanMutationResult`].
pub struct PlanMutationView {
    pub plan: Seq<PlanItemView>,
    pub created: bool,
    pub session_budget_minutes: u16,
    pub remaining_wall_clock: int,
}

impl View for PlanMutationResult {
    type V = PlanMutationView;

    open spec fn view(&self) -> PlanMutationView {
        PlanMutationView {
            plan: self.plan@,
            created: self.created,
            session_budget_minutes: self.session_budget_minutes,
            remaining_wall_clock: self.remaining_wall_clock@,
        }
    }
}

/// The change to `plan` in the session `p`.
pub open spec fn plan_mutation(p: ProjectionView, plan: Seq<PlanItemView>, created: bool) -> PlanMutationView {
    PlanMutationView {
        plan,
        created,
        session_budget_minutes: p.metadata.duration_minutes,
        remaining_wall_clock: p.remaining_wall_clock,
    }
}

impl PlanMutationResult {
    /// The change to `plan` in the session `projection`.
    pub fn new(projection: &SessionProjection, plan: Plan, created: bool) -> (res: PlanMutationResult)
        ensures
            res@ == plan_mutation(projection@, plan@, created),
    {
        PlanMutationResult {
            plan,
            created,
            session_budget_minutes: projection.metadata.duration_minutes,
            remaining_wall_clock: projection.remaining_wall_clock,
        }
    }
}

/// What happens when `appended` goes to the end of the log for the session `id`.
pub open spec fn recorded(id: SessionId, now: Instant, appended: Seq<StoredEventView>) -> OutcomeView {
    OutcomeView { session_id: id, occurred_at: now, appended, plan_change: None }
}

/// What happens when the session `p` gets the plan `plan` by hand.
pub open spec fn replanned(
    p: ProjectionView,
    now: Instant,
    plan: Seq<PlanItemView>,
    created: bool,
) -> OutcomeView {
    let id = p.metadata.session_id;
    let source = PlanSourceView::Manual;
    OutcomeView {
        session_id: id,
        occurred_at: now,
        appended: seq![
            session::stored(
                id,
                now,
                if created {
                    EventView::PlanCreated { plan, source }
                } else {
                    EventView::PlanRevised { plan, source }
                },
            ),
        ],
        plan_change: Some(plan_mutation(p, plan, created)),
    }
}

/// A text that the user must give: it is kept without the white space around it.
pub open spec fn given_text(value: Seq<char>, label: Seq<char>) -> Result<Seq<char>, ErrorView> {
    if text::blank(value) {
        Err(session::empty_input(label))
    } else {
        Ok(text::trimmed(value))
    }
}

/// A text that the user must give.
fn take_text(value: &str, label: &str) -> (res: Result<String, LokinError>)
    ensures
        error::result_view(res) == given_text(value@, label@),
{
    let trimmed = text::trim(value);
    proof {
        text::trimming_is_stable(value@);
    }
    session::validate_nonempty(trimmed.as_str(), label)?;
    Ok(trimmed)
}

/// A text that the user may give.
pub open spec fn given_optional_text(value: Option<Seq<char>>, label: Seq<char>) -> Result<
    Option<Seq<char>>,
    ErrorView,
> {
    match value {
        None => Ok(None),
        Some(value) => match given_text(value, label) {
            Ok(value) => Ok(Some(value)),
            Err(e) => Err(e),
        },
    }
}

/// The goal of a session that is to start: not blank, and with time for it.
pub open spec fn given_goal(goal: Seq<char>, duration_minutes: u16) -> Result<
    Seq<char>,
    ErrorView,
> {
    match given_text(goal, "Goal"@) {
        Err(e) => Err(e),
        Ok(goal) => if duration_minutes == 0 {
            Err(session::no_duration("Session duration"@))
        } else {
            Ok(goal)
        },
    }
}

/// The goal of a session that is to start.
pub fn accept_goal(goal: &str, duration_minutes: u16) -> (res: Result<String, LokinError>)
    ensures
        error::result_view(res) == given_goal(goal@, duration_minutes),
{
    let goal = take_text(goal, "Goal")?;
    session::validate_duration(duration_minutes, "Session duration")?;
    Ok(goal)
}

/// A session may start: none is active.
pub open spec fn may_start(events: Seq<StoredEventView>, now: Instant) -> Result<(), ErrorView> {
    match replay::reconstructed(events, now) {
        Err(e) => Err(e),
        Ok(sessions) => match sole_active(sessions) {
            Err(e) => Err(e),
            Ok(Some(_)) => Err(
                ErrorView::InvalidTransition(
                    "A Lokin session is already active. Stop it or let its deadline pass first."@,
                ),
            ),
            Ok(None) => Ok(()),
        },
    }
}

/// Refuses a start while a session is active.
fn check_start(events: &[StoredEvent], now: Timestamp) -> (res: Result<(), LokinError>)
    ensures
        match res {
            Ok(()) => may_start(session::views(events@), now@) is Ok,
            Err(e) => may_start(session::views(events@), now@) == Err::<(), _>(e@),
        },
{
    let projections = replay::reconstruct_all(events, now)?;
    if active_projection(projections.as_slice())?.is_some() {
        return Err(
            LokinError::InvalidTransition(
                "A Lokin session is already active. Stop it or let its deadline pass first.".to_owned(),
            ),
        );
    }
    Ok(())
}

/// The start of the session `id`.
pub open spec fn start_outcome(
    events: Seq<StoredEventView>,
    id: SessionId,
    now: Instant,
    goal: Seq<char>,
    duration_minutes: u16,
) -> Result<OutcomeView, ErrorView> {
    match may_start(events, now) {
        Err(e) => Err(e),
        Ok(()) => Ok(
            recorded(
                id,
                now,
                seq![session::stored(id, now, EventView::SessionStarted { goal, duration_minutes })],
            ),
        ),
    }
}

/// Starts the session `session_id`, unless one is active.
pub fn start_without_plan(
    events: &[StoredEvent],
    session_id: SessionId,
    now: Timestamp,
    goal: String,
    duration_minutes: u16,
) -> (res: Result<Outcome, LokinError>)
    ensures
        error::result_view(res) == start_outcome(
            session::views(events@),
            session_id,
            now@,
            goal@,
            duration_minutes,
        ),
{
    check_start(events, now)?;
    let mut appended: Vec<StoredEvent> = Vec::new();
    appended.push(
        StoredEvent::new(
            session_id,
            now,
            SessionEvent::SessionStarted { goal, duration_minutes },
        ),
    );
    assert(session::views(appended@) =~= seq![appended@[0]@]);
    Ok(Outcome { session_id, occurred_at: now, appended, plan_change: None })
}

/// A plan that the provider's model `model` proposed.
pub open spec fn groq(model: Seq<char>) -> PlanSourceView {
    PlanSourceView::Llm { provider: "groq"@, model }
}

/// A plan that the provider's model `model` proposed.
fn groq_source(model: &str) -> (res: PlanSource)
    ensures
        res@ == groq(model@),
{
    PlanSource::Llm { provider: "groq".to_owned(), model: model.to_owned() }
}

/// The start of the session `id` with a plan that the model `model` proposed.
pub open spec fn planned_start_outcome(
    events: Seq<StoredEventView>,
    id: SessionId,
    now: Instant,
    goal: Seq<char>,
    duration_minutes: u16,
    plan: Seq<PlanItemView>,
    model: Seq<char>,
) -> Result<OutcomeView, ErrorView> {
    match may_start(events, now) {
        Err(e) => Err(e),
        Ok(()) => Ok(
            recorded(
                id,
                now,
                seq![
                    session::stored(id, now, EventView::SessionStarted { goal, duration_minutes }),
                    session::stored(id, now, EventView::PlanCreated { plan, source: groq(model) }),
                ],
            ),
        ),
    }
}

/// Starts the session `session_id` with a plan that the model `model` proposed, unless one is
/// active.
pub fn start_with_llm_plan(
    events: &[StoredEvent],
    session_id: SessionId,
    now: Timestamp,
    goal: String,
    duration_minutes: u16,
    plan: Plan,
    model: &str,
) -> (res: Result<Outcome, LokinError>)
    ensures
        error::result_view(res) == planned_start_outcome(
            session::views(events@),
            session_id,
            now@,
            goal@,
            duration_minutes,
            plan@,
            model@,
        ),
{
    check_start(events, now)?;
    let mut appended: Vec<StoredEvent> = Vec::new();
    appended.push(
        StoredEvent::new(
            session_id,
            now,
            SessionEvent::SessionStarted { goal, duration_minutes },
        ),
    );
    appended.push(
        StoredEvent::new(
            session_id,
            now,
            SessionEvent::PlanCreated { plan, source: groq_source(model) },
        ),
    );
    assert(session::views(appended@) =~= seq![appended@[0]@, appended@[1]@]);
    Ok(Outcome { session_id, occurred_at: now, appended, plan_change: None })
}

/// A pause, with a note on the progress if the user gave one.
pub open spec fn pause_outcome(
    events: Seq<StoredEventView>,
    now: Instant,
    note: Option<Seq<char>>,
) -> Result<OutcomeView, ErrorView> {
    match given_optional_text(note, "Checkpoint note"@) {
        Err(e) => Err(e),
        Ok(note) => match current(events, now) {
            Err(e) => Err(e),
            Ok(p) => if p.effective_state != EffectiveState::Running {
                Err(ErrorView::InvalidTransition("The current session is already paused."@))
            } else {
                let id = p.metadata.session_id;
                let paused = session::stored(id, now, EventView::SessionPaused);
                Ok(
                    recorded(
                        id,
                        now,
                        match note {
                            None => seq![paused],
                            Some(note) => seq![
                                paused,
                                session::stored(id, now, EventView::CheckpointAdded { note }),
                            ],
                        },
                    ),
                )
            },
        },
    }
}

/// Pauses the active session, with a note on the progress if there is one.
pub fn pause(events: &[StoredEvent], now: Timestamp, note: Option<&str>) -> (res: Result<
    Outcome,
    LokinError,
>)
    ensures
        error::result_view(res) == pause_outcome(
            session::views(events@),
            now@,
            text::optional_text(note),
        ),
{
    let note: Option<String> = match note {
        Some(value) => Some(take_text(value, "Checkpoint note")?),
        None => None,
    };
    let projections = replay::reconstruct_all(events, now)?;
    let current = require_active_projection(projections.as_slice())?;
    if current.effective_state != EffectiveState::Running {
        return Err(
            LokinError::InvalidTransition("The current session is already paused.".to_owned()),
        );
    }
    let session_id = current.metadata.session_id;
    let mut appended: Vec<StoredEvent> = Vec::new();
    appended.push(StoredEvent::new(session_id, now, SessionEvent::SessionPaused));
    assert(session::views(appended@) =~= seq![appended@[0]@]);
    match note {
        Some(note) => {
            appended.push(
                StoredEvent::new(session_id, now, SessionEvent::CheckpointAdded { note }),
            );
            assert(session::views(appended@) =~= seq![appended@[0]@, appended@[1]@]);
        },
        None => {},
    }
    Ok(Outcome { session_id, occurred_at: now, appended, plan_change: None })
}

/// A note on the progress of the active session.
pub open spec fn checkpoint_outcome(
    events: Seq<StoredEventView>,
    now: Instant,
    note: Seq<char>,
) -> Result<OutcomeView, ErrorView> {
    match given_text(note, "Checkpoint note"@) {
        Err(e) => Err(e),
        Ok(note) => match current(events, now) {
            Err(e) => Err(e),
            Ok(p) => {
                let id = p.metadata.session_id;
                Ok(
                    recorded(
                        id,
                        now,
                        seq![session::stored(id, now, EventView::CheckpointAdded { note })],
                    ),
                )
            },
        },
    }
}

/// Adds a note on the progress of the active session.
pub fn checkpoint(events: &[StoredEvent], now: Timestamp, note: &str) -> (res: Result<
    Outcome,
    LokinError,
>)
    ensures
        error::result_view(res) == checkpoint_outcome(session::views(events@), now@, note@),
{
    let note = take_text(note, "Checkpoint note")?;
    let projections = replay::reconstruct_all(events, now)?;
    let current = require_active_projection(projections.as_slice())?;
    let session_id = current.metadata.session_id;
    let mut appended: Vec<StoredEvent> = Vec::new();
    appended.push(StoredEvent::new(session_id, now, SessionEvent::CheckpointAdded { note }));
    assert(session::views(appended@) =~= seq![appended@[0]@]);
    Ok(Outcome { session_id, occurred_at: now, appended, plan_change: None })
}

/// The end of a pause.
pub open spec fn resume_outcome(events: Seq<StoredEventView>, now: Instant) -> Result<
    OutcomeView,
    ErrorView,
> {
    match current(events, now) {
        Err(e) => Err(e),
        Ok(p) => if p.effective_state != EffectiveState::Paused {
            Err(ErrorView::InvalidTransition("The current session is already running."@))
        } else {
            let id = p.metadata.session_id;
            Ok(recorded(id, now, seq![session::stored(id, now, EventView::SessionResumed)]))
        },
    }
}

/// Ends the pause of the active session.
pub fn resume(events: &[StoredEvent], now: Timestamp) -> (res: Result<Outcome, LokinError>)
    ensures
        error::result_view(res) == resume_outcome(session::views(events@), now@),
{
    let projections = replay::reconstruct_all(events, now)?;
    let current = require_active_projection(projections.as_slice())?;
    if current.effective_state != EffectiveState::Paused {
        return Err(
            LokinError::InvalidTransition("The current session is already running.".to_owned()),
        );
    }
    let session_id = current.metadata.session_id;
    let mut appended: Vec<StoredEvent> = Vec::new();
    appended.push(StoredEvent::new(session_id, now, SessionEvent::SessionResumed));
    assert(session::views(appended@) =~= seq![appended@[0]@]);
    Ok(Outcome { session_id, occurred_at: now, appended, plan_change: None })
}

/// The end of the active session.
pub open spec fn stop_outcome(events: Seq<StoredEventView>, now: Instant) -> Result<
    OutcomeView,
    ErrorView,
> {
    match current(events, now) {
        Err(e) => Err(e),
        Ok(p) => {
            let id = p.metadata.session_id;
            Ok(recorded(id, now, seq![session::stored(id, now, EventView::SessionStopped)]))
        },
    }
}

/// Ends the active session.
pub fn stop(events: &[StoredEvent], now: Timestamp) -> (res: Result<Outcome, LokinError>)
    ensures
        error::result_view(res) == stop_outcome(session::views(events@), now@),
{
    let projections = replay::reconstruct_all(events, now)?;
    let current = require_active_projection(projections.as_slice())?;
    let session_id = current.metadata.session_id;
    let mut appended: Vec<StoredEvent> = Vec::new();
    appended.push(StoredEvent::new(session_id, now, SessionEvent::SessionStopped));
    assert(session::views(appended@) =~= seq![appended@[0]@]);
    Ok(Outcome { session_id, occurred_at: now, appended, plan_change: None })
}

/// A new step at the end of the plan, which becomes the first one if there was none.
pub open spec fn plan_add_outcome(
    events: Seq<StoredEventView>,
    now: Instant,
    description: Seq<char>,
    duration_minutes: u16,
) -> Result<OutcomeView, ErrorView> {
    match given_text(description, "Plan item description"@) {
        Err(e) => Err(e),
        Ok(description) => if duration_minutes == 0 {
            Err(session::no_duration("Plan item duration"@))
        } else {
            match current(events, now) {
                Err(e) => Err(e),
                Ok(p) => {
                    let before = match p.current_plan {
                        Some(plan) => plan,
                        None => seq![],
                    };
                    let plan = before.push(
                        PlanItemView {
                            description,
                            duration_minutes,
                            status: PlanItemStatus::Pending,
                        },
                    );
                    match session::plan_fault(plan) {
                        Some(e) => Err(e),
                        None => Ok(replanned(p, now, plan, p.current_plan is None)),
                    }
                },
            }
        },
    }
}

/// Adds a step to the plan of the active session.
pub fn plan_add(
    events: &[StoredEvent],
    now: Timestamp,
    description: &str,
    duration_minutes: u16,
) -> (res: Result<Outcome, LokinError>)
    ensures
        error::result_view(res) == plan_add_outcome(
            session::views(events@),
            now@,
            description@,
            duration_minutes,
        ),
{
    let description = take_text(description, "Plan item description")?;
    session::validate_duration(duration_minutes, "Plan item duration")?;
    let projections = replay::reconstruct_all(events, now)?;
    let current = require_active_projection(projections.as_slice())?;
    let created = current.current_plan.is_none();
    let mut plan: Plan = match &current.current_plan {
        Some(plan) => plan.clone(),
        None => Plan { items: Vec::new() },
    };
    let item = PlanItem { description, duration_minutes, status: PlanItemStatus::Pending };
    let ghost before = plan@;
    let ghost added = item@;
    assert(current.current_plan is None ==> before =~= seq![]);
    plan.items.push(item);
    assert(plan@ =~= before.push(added));
    session::validate_plan(&plan)?;
    let event = if created {
        SessionEvent::PlanCreated { plan: plan.clone(), source: PlanSource::Manual }
    } else {
        SessionEvent::PlanRevised { plan: plan.clone(), source: PlanSource::Manual }
    };
    let session_id = current.metadata.session_id;
    let mut appended: Vec<StoredEvent> = Vec::new();
    appended.push(StoredEvent::new(session_id, now, event));
    assert(session::views(appended@) =~= seq![appended@[0]@]);
    Ok(
        Outcome {
            session_id,
            occurred_at: now,
            appended,
            plan_change: Some(PlanMutationResult::new(current, plan, created)),
        },
    )
}

/// The index of the step that the user calls `item_number`.
pub open spec fn item_index(item_number: usize, item_count: nat) -> Result<int, ErrorView> {
    if 1 <= item_number <= item_count {
        Ok(item_number - 1)
    } else {
        Err(
            ErrorView::InvalidInput(
                "Plan item "@ + text::decimal(item_number as nat)
                    + " does not exist; choose a number from 1 to "@ + text::decimal(item_count)
                    + "."@,
            ),
        )
    }
}

/// The index of the step that the user calls `item_number`: the steps are counted from one.
pub fn plan_index(item_number: usize, item_count: usize) -> (res: Result<usize, LokinError>)
    ensures
        match res {
            Ok(index) => item_index(item_number, item_count as nat) == Ok::<_, ErrorView>(
                index as int,
            ),
            Err(e) => item_index(item_number, item_count as nat) == Err::<int, _>(e@),
        },
{
    if item_number == 0 || item_number > item_count {
        return Err(
            LokinError::InvalidInput(
                "Plan item ".to_owned().concat(
                    text::decimal_text(item_number as u128).as_str(),
                ).concat(" does not exist; choose a number from 1 to ").concat(
                    text::decimal_text(item_count as u128).as_str(),
                ).concat("."),
            ),
        );
    }
    Ok(item_number - 1)
}

/// What the user may change about a step, read from what was typed.
pub struct ItemChange {
    pub description: Option<String>,
    pub duration_minutes: Option<u16>,
    pub status: Option<PlanItemStatus>,
}

/// The model of [`ItemChange`].
pub struct ItemChangeView {
    pub description: Option<Seq<char>>,
    pub duration_minutes: Option<u16>,
    pub status: Option<PlanItemStatus>,
}

/// The change that the user asks for. The status is looked at first, then the description, then the
/// duration.
pub open spec fn given_change(
    description: Option<Seq<char>>,
    duration_minutes: Option<u16>,
    status: Option<Seq<char>>,
) -> Result<ItemChangeView, ErrorView> {
    let status = match status {
        None => Ok(None),
        Some(word) => match session::parsed_status(word) {
            Ok(status) => Ok(Some(status)),
            Err(e) => Err(e),
        },
    };
    match status {
        Err(e) => Err(e),
        Ok(status) => match given_optional_text(description, "Plan item description"@) {
            Err(e) => Err(e),
            Ok(description) => if duration_minutes == Some(0u16) {
                Err(session::no_duration("Plan item duration"@))
            } else {
                Ok(ItemChangeView { description, duration_minutes, status })
            },
        },
    }
}

impl ItemChangeView {
    /// The step after the change.
    pub open spec fn apply(self, item: PlanItemView) -> PlanItemView {
        PlanItemView {
            description: match self.description {
                Some(description) => description,
                None => item.description,
            },
            duration_minutes: match self.duration_minutes {
                Some(duration_minutes) => duration_minutes,
                None => item.duration_minutes,
            },
            status: match self.status {
                Some(status) => status,
                None => item.status,
            },
        }
    }
}

impl View for ItemChange {
    type V = ItemChangeView;

    open spec fn view(&self) -> ItemChangeView {
        ItemChangeView {
            description: session::optional_view(self.description),
            duration_minutes: self.duration_minutes,
            status: self.status,
        }
    }
}

/// The change that the user asks for.
pub fn read_change(
    description: Option<&str>,
    duration_minutes: Option<u16>,
    status: Option<&str>,
) -> (res: Result<ItemChange, LokinError>)
    ensures
        error::result_view(res) == given_change(
            text::optional_text(description),
            duration_minutes,
            text::optional_text(status),
        ),
{
    let status: Option<PlanItemStatus> = match status {
        Some(word) => Some(PlanItemStatus::parse(word)?),
        None => None,
    };
    let description: Option<String> = match description {
        Some(value) => Some(take_text(value, "Plan item description")?),
        None => None,
    };
    if let Some(value) = duration_minutes {
        session::validate_duration(value, "Plan item duration")?;
    }
    Ok(ItemChange { description, duration_minutes, status })
}

impl ItemChange {
    /// The step after the change.
    pub fn apply_to(self, item: PlanItem) -> (res: PlanItem)
        ensures
            res@ == self@.apply(item@),
    {
        let description = match self.description {
            Some(description) => description,
            None => item.description,
        };
        let duration_minutes: u16 = match self.duration_minutes {
            Some(duration_minutes) => duration_minutes,
            None => item.duration_minutes,
        };
        let status = match self.status {
            Some(status) => status,
            None => item.status,
        };
        PlanItem { description, duration_minutes, status }
    }
}

/// A step of the plan with another description, duration or status.
pub open spec fn plan_update_outcome(
    events: Seq<StoredEventView>,
    now: Instant,
    item_number: usize,
    description: Option<Seq<char>>,
    duration_minutes: Option<u16>,
    status: Option<Seq<char>>,
) -> Result<OutcomeView, ErrorView> {
    match given_change(description, duration_minutes, status) {
        Err(e) => Err(e),
        Ok(change) => match current(events, now) {
            Err(e) => Err(e),
            Ok(p) => match p.current_plan {
                None => Err(
                    ErrorView::InvalidTransition(
                        "No plan exists yet. Add the first item with `lokin plan add`."@,
                    ),
                ),
                Some(before) => match item_index(item_number, before.len()) {
                    Err(e) => Err(e),
                    Ok(index) => {
                        let plan = before.update(index, change.apply(before[index]));
                        match session::plan_fault(plan) {
                            Some(e) => Err(e),
                            None => Ok(replanned(p, now, plan, false)),
                        }
                    },
                },
            },
        },
    }
}

/// Changes a step of the plan of the active session.
pub fn plan_update(
    events: &[StoredEvent],
    now: Timestamp,
    item_number: usize,
    description: Option<&str>,
    duration_minutes: Option<u16>,
    status: Option<&str>,
) -> (res: Result<Outcome, LokinError>)
    ensures
        error::result_view(res) == plan_update_outcome(
            session::views(events@),
            now@,
            item_number,
            text::optional_text(description),
            duration_minutes,
            text::optional_text(status),
        ),
{
    let change = read_change(description, duration_minutes, status)?;
    let projections = replay::reconstruct_all(events, now)?;
    let current = require_active_projection(projections.as_slice())?;
    let mut plan: Plan = match &current.current_plan {
        Some(plan) => plan.clone(),
        None => {
            return Err(
                LokinError::InvalidTransition(
                    "No plan exists yet. Add the first item with `lokin plan add`.".to_owned(),
                ),
            );
        },
    };
    let ghost before = plan@;
    let index: usize = plan_index(item_number, plan.items.len())?;
    let item = plan.items.remove(index);
    assert(item@ == before[index as int]);
    let changed = change.apply_to(item);
    let ghost step = changed@;
    plan.items.insert(index, changed);
    assert(plan@ =~= before.update(index as int, step));
    session::validate_plan(&plan)?;
    let session_id = current.metadata.session_id;
    let mut appended: Vec<StoredEvent> = Vec::new();
    appended.push(
        StoredEvent::new(
            session_id,
            now,
            SessionEvent::PlanRevised { plan: plan.clone(), source: PlanSource::Manual },
        ),
    );
    assert(session::views(appended@) =~= seq![appended@[0]@]);
    Ok(
        Outcome {
            session_id,
            occurred_at: now,
            appended,
            plan_change: Some(PlanMutationResult::new(current, plan, false)),
        },
    )
}

/// The plan without one of its steps.
pub open spec fn plan_remove_outcome(
    events: Seq<StoredEventView>,
    now: Instant,
    item_number: usize,
) -> Result<OutcomeView, ErrorView> {
    match current(events, now) {
        Err(e) => Err(e),
        Ok(p) => match p.current_plan {
            None => Err(ErrorView::InvalidTransition("No plan exists for this session."@)),
            Some(before) => match item_index(item_number, before.len()) {
                Err(e) => Err(e),
                Ok(index) => Ok(replanned(p, now, before.remove(index), false)),
            },
        },
    }
}

/// Removes a step from the plan of the active session.
pub fn plan_remove(events: &[StoredEvent], now: Timestamp, item_number: usize) -> (res: Result<
    Outcome,
    LokinError,
>)
    ensures
        error::result_view(res) == plan_remove_outcome(session::views(events@), now@, item_number),
{
    let projections = replay::reconstruct_all(events, now)?;
    let current = require_active_projection(projections.as_slice())?;
    let mut plan: Plan = match &current.current_plan {
        Some(plan) => plan.clone(),
        None => {
            return Err(
                LokinError::InvalidTransition("No plan exists for this session.".to_owned()),
            );
        },
    };
    let ghost before = plan@;
    let index: usize = plan_index(item_number, plan.items.len())?;
    plan.items.remove(index);
    assert(plan@ =~= before.remove(index as int));
    let session_id = current.metadata.session_id;
    let mut appended: Vec<StoredEvent> = Vec::new();
    appended.push(
        StoredEvent::new(
            session_id,
            now,
            SessionEvent::PlanRevised { plan: plan.clone(), source: PlanSource::Manual },
        ),
    );
    assert(session::views(appended@) =~= seq![appended@[0]@]);
    Ok(
        Outcome {
            session_id,
            occurred_at: now,
            appended,
            plan_change: Some(PlanMutationResult::new(current, plan, false)),
        },
    )
}

/// The events of the session `id`.
pub open spec fn events_of(events: Seq<StoredEventView>, id: SessionId) -> Seq<StoredEventView> {
    events.filter(|e: StoredEventView| e.session_id == id)
}

/// The events of the session `session_id`, in the order of the log.
pub fn events_for_session(events: &[StoredEvent], session_id: SessionId) -> (res: Vec<StoredEvent>)
    ensures
        session::views(res@) == events_of(session::views(events@), session_id),
{
    let ghost all = session::views(events@);
    let ghost wanted = |e: StoredEventView| e.session_id == session_id;
    let mut res: Vec<StoredEvent> = Vec::new();
    let mut i: usize = 0;
    proof {
        reveal(Seq::filter);
        assert(session::views(res@) =~= all.take(0).filter(wanted));
    }
    while i < events.len()
        invariant
            i <= events.len(),
            all == session::views(events@),
            wanted == (|e: StoredEventView| e.session_id == session_id),
            session::views(res@) == all.take(i as int).filter(wanted),
        decreases events.len() - i,
    {
        let ghost next = all.take(i + 1);
        let ghost before = session::views(res@);
        proof {
            reveal(Seq::filter);
            assert(next.drop_last() =~= all.take(i as int));
            assert(next.last() == events@[i as int]@);
        }
        if events[i].session_id == session_id {
            res.push(events[i].clone());
            assert(session::views(res@) =~= before.push(events@[i as int]@));
        }
        i = i + 1;
    }
    assert(all.take(i as int) =~= all);
    res
}

/// The session whose plan a model is to revise: the active one, which must have a plan.
pub open spec fn required_revisable(sessions: Seq<ProjectionView>) -> Result<
    ProjectionView,
    ErrorView,
> {
    match required_active(sessions) {
        Err(e) => Err(e),
        Ok(p) => if p.current_plan is None {
            Err(
                ErrorView::InvalidTransition(
                    "No plan exists yet. Start with `lokin plan add` or begin a new session with `--plan`."@,
                ),
            )
        } else {
            Ok(p)
        },
    }
}

/// The session whose plan a model is to revise.
pub fn require_revisable_projection(projections: &[SessionProjection]) -> (res: Result<
    &SessionProjection,
    LokinError,
>)
    ensures
        error::result_view(res) == required_revisable(session::views(projections@)),
{
    let current = require_active_projection(projections)?;
    if current.current_plan.is_none() {
        return Err(
            LokinError::InvalidTransition(
                "No plan exists yet. Start with `lokin plan add` or begin a new session with `--plan`.".to_owned(),
            ),
        );
    }
    Ok(current)
}

/// The plan of a model takes the place of the plan of the session `id`, unless something happened
/// to that session since `base` were its events.
pub open spec fn plan_revise_outcome(
    events: Seq<StoredEventView>,
    now: Instant,
    id: SessionId,
    base: Seq<StoredEventView>,
    plan: Seq<PlanItemView>,
    model: Seq<char>,
) -> Result<OutcomeView, ErrorView> {
    if events_of(events, id) != base {
        Err(
            ErrorView::InvalidTransition(
                "The session changed while the plan was being generated. Rerun `lokin plan revise`."@,
            ),
        )
    } else {
        match current(events, now) {
            Err(e) => Err(e),
            Ok(p) => if p.metadata.session_id != id || p.current_plan is None {
                Err(
                    ErrorView::InvalidTransition(
                        "The active session changed while the plan was being generated. Rerun `lokin plan revise`."@,
                    ),
                )
            } else {
                match llm::budget_fault(plan, p.remaining_wall_clock) {
                    Some(e) => Err(e),
                    None => Ok(
                        recorded(
                            id,
                            now,
                            seq![
                                session::stored(
                                    id,
                                    now,
                                    EventView::PlanRevised { plan, source: groq(model) },
                                ),
                            ],
                        ),
                    ),
                }
            },
        }
    }
}

/// Puts the plan of a model in the place of the plan of the session `session_id`, unless something
/// happened to that session since `base_session_events` were its events.
pub fn plan_revise(
    events: &[StoredEvent],
    now: Timestamp,
    session_id: SessionId,
    base_session_events: &[StoredEvent],
    plan: Plan,
    model: &str,
) -> (res: Result<Outcome, LokinError>)
    ensures
        error::result_view(res) == plan_revise_outcome(
            session::views(events@),
            now@,
            session_id,
            session::views(base_session_events@),
            plan@,
            model@,
        ),
{
    let present = events_for_session(events, session_id);
    if !session::same_events(present.as_slice(), base_session_events) {
        return Err(
            LokinError::InvalidTransition(
                "The session changed while the plan was being generated. Rerun `lokin plan revise`.".to_owned(),
            ),
        );
    }
    let projections = replay::reconstruct_all(events, now)?;
    let current = require_active_projection(projections.as_slice())?;
    if current.metadata.session_id != session_id || current.current_plan.is_none() {
        return Err(
            LokinError::InvalidTransition(
                "The active session changed while the plan was being generated. Rerun `lokin plan revise`.".to_owned(),
            ),
        );
    }
    llm::validate_plan_fits_budget(&plan, current.remaining_wall_clock)?;
    let mut appended: Vec<StoredEvent> = Vec::new();
    appended.push(
        StoredEvent::new(
            session_id,
            now,
            SessionEvent::PlanRevised { plan, source: groq_source(model) },
        ),
    );
    assert(session::views(appended@) =~= seq![appended@[0]@]);
    Ok(Outcome { session_id, occurred_at: now, appended, plan_change: None })
}

/// Something that the user wants done to the log.
#[allow(inconsistent_fields)]
pub enum Command {
    /// Start a session.
    Start { goal: String, duration_minutes: u16 },
    /// Start a session with a plan that a model proposed and the user accepted.
    StartWithPlan { goal: String, duration_minutes: u16, plan: Plan, model: String },
    Pause { note: Option<String> },
    Checkpoint { note: String },
    Resume,
    Stop,
    PlanAdd { description: String, duration_minutes: u16 },
    PlanUpdate {
        item_number: usize,
        description: Option<String>,
        duration_minutes: Option<u16>,
        status: Option<String>,
    },
    PlanRemove { item_number: usize },
    /// Replace the plan by one that a model proposed and the user accepted.
    PlanRevise {
        session_id: SessionId,
        base_session_events: Vec<StoredEvent>,
        plan: Plan,
        model: String,
    },
}

/// The model of [`Command`].
#[allow(inconsistent_fields)]
pub enum CommandView {
    Start { goal: Seq<char>, duration_minutes: u16 },
    StartWithPlan {
        goal: Seq<char>,
        duration_minutes: u16,
        plan: Seq<PlanItemView>,
        model: Seq<char>,
    },
    Pause { note: Option<Seq<char>> },
    Checkpoint { note: Seq<char> },
    Resume,
    Stop,
    PlanAdd { description: Seq<char>, duration_minutes: u16 },
    PlanUpdate {
        item_number: usize,
        description: Option<Seq<char>>,
        duration_minutes: Option<u16>,
        status: Option<Seq<char>>,
    },
    PlanRemove { item_number: usize },
    PlanRevise {
        session_id: SessionId,
        base: Seq<StoredEventView>,
        plan: Seq<PlanItemView>,
        model: Seq<char>,
    },
}

impl View for Command {
    type V = CommandView;

    open spec fn view(&self) -> CommandView {
        match self {
            Command::Start { goal, duration_minutes } => CommandView::Start {
                goal: goal@,
                duration_minutes: *duration_minutes,
            },
            Command::StartWithPlan { goal, duration_minutes, plan, model } =>
                CommandView::StartWithPlan {
                goal: goal@,
                duration_minutes: *duration_minutes,
                plan: plan@,
                model: model@,
            },
            Command::Pause { note } => CommandView::Pause { note: session::optional_view(*note) },
            Command::Checkpoint { note } => CommandView::Checkpoint { note: note@ },
            Command::Resume => CommandView::Resume,
            Command::Stop => CommandView::Stop,
            Command::PlanAdd { description, duration_minutes } => CommandView::PlanAdd {
                description: description@,
                duration_minutes: *duration_minutes,
            },
            Command::PlanUpdate { item_number, description, duration_minutes, status } =>
                CommandView::PlanUpdate {
                item_number: *item_number,
                description: session::optional_view(*description),
                duration_minutes: *duration_minutes,
                status: session::optional_view(*status),
            },
            Command::PlanRemove { item_number } => CommandView::PlanRemove {
                item_number: *item_number,
            },
            Command::PlanRevise { session_id, base_session_events, plan, model } =>
                CommandView::PlanRevise {
                session_id: *session_id,
                base: session::views(base_session_events@),
                plan: plan@,
                model: model@,
            },
        }
    }
}

impl CommandView {
    /// The command starts a session.
    pub open spec fn starts(self) -> bool {
        self is Start || self is StartWithPlan
    }
}

/// What a command does at the instant `now`; a session that it starts is called `id`.
pub open spec fn decided(
    events: Seq<StoredEventView>,
    id: SessionId,
    now: Instant,
    command: CommandView,
) -> Result<OutcomeView, ErrorView> {
    match command {
        CommandView::Start { goal, duration_minutes } => match given_goal(goal, duration_minutes) {
            Err(e) => Err(e),
            Ok(goal) => start_outcome(events, id, now, goal, duration_minutes),
        },
        CommandView::StartWithPlan { goal, duration_minutes, plan, model } =>
            planned_start_outcome(events, id, now, goal, duration_minutes, plan, model),
        CommandView::Pause { note } => pause_outcome(events, now, note),
        CommandView::Checkpoint { note } => checkpoint_outcome(events, now, note),
        CommandView::Resume => resume_outcome(events, now),
        CommandView::Stop => stop_outcome(events, now),
        CommandView::PlanAdd { description, duration_minutes } => plan_add_outcome(
            events,
            now,
            description,
            duration_minutes,
        ),
        CommandView::PlanUpdate { item_number, description, duration_minutes, status } =>
            plan_update_outcome(events, now, item_number, description, duration_minutes, status),
        CommandView::PlanRemove { item_number } => plan_remove_outcome(events, now, item_number),
        CommandView::PlanRevise { session_id, base, plan, model } => plan_revise_outcome(
            events,
            now,
            session_id,
            base,
            plan,
            model,
        ),
    }
}

/// What stands against a command whatever the log holds: something that was typed is not
/// acceptable.
pub open spec fn input_fault(command: CommandView) -> Option<ErrorView> {
    match command {
        CommandView::Start { goal, duration_minutes } => given_goal(goal, duration_minutes).err(),
        CommandView::Pause { note } => given_optional_text(note, "Checkpoint note"@).err(),
        CommandView::Checkpoint { note } => given_text(note, "Checkpoint note"@).err(),
        CommandView::PlanAdd { description, duration_minutes } => match given_text(
            description,
            "Plan item description"@,
        ) {
            Err(e) => Some(e),
            Ok(_) => if duration_minutes == 0 {
                Some(session::no_duration("Plan item duration"@))
            } else {
                None
            },
        },
        CommandView::PlanUpdate { item_number, description, duration_minutes, status } =>
            given_change(description, duration_minutes, status).err(),
        _ => None,
    }
}

/// Looks at what was typed, before the log is.
pub fn check_input(command: &Command) -> (res: Result<(), LokinError>)
    ensures
        res is Ok <==> input_fault(command@) is None,
        res matches Err(e) ==> input_fault(command@) == Some(e@),
{
    match command {
        Command::Start { goal, duration_minutes } => {
            accept_goal(goal.as_str(), *duration_minutes)?;
        },
        Command::Pause { note: Some(note) } => {
            take_text(note.as_str(), "Checkpoint note")?;
        },
        Command::Checkpoint { note } => {
            take_text(note.as_str(), "Checkpoint note")?;
        },
        Command::PlanAdd { description, duration_minutes } => {
            take_text(description.as_str(), "Plan item description")?;
            session::validate_duration(*duration_minutes, "Plan item duration")?;
        },
        Command::PlanUpdate { item_number, description, duration_minutes, status } => {
            read_change(as_slice(description), *duration_minutes, as_slice(status))?;
        },
        _ => {},
    }
    Ok(())
}

/// An optional string as a string slice.
fn as_slice(value: &Option<String>) -> (res: Option<&str>)
    ensures
        text::optional_text(res) == session::optional_view(*value),
{
    match value {
        Some(value) => Some(value.as_str()),
        None => None,
    }
}

/// Carries out a command at the instant `now`; a session that it starts is called `session_id`.
pub fn decide(
    events: &[StoredEvent],
    session_id: SessionId,
    now: Timestamp,
    command: &Command,
) -> (res: Result<Outcome, LokinError>)
    ensures
        error::result_view(res) == decided(session::views(events@), session_id, now@, command@),
{
    match command {
        Command::Start { goal, duration_minutes } => {
            let goal = accept_goal(goal.as_str(), *duration_minutes)?;
            start_without_plan(events, session_id, now, goal, *duration_minutes)
        },
        Command::StartWithPlan { goal, duration_minutes, plan, model } => start_with_llm_plan(
            events,
            session_id,
            now,
            goal.clone(),
            *duration_minutes,
            plan.clone(),
            model.as_str(),
        ),
        Command::Pause { note } => pause(events, now, as_slice(note)),
        Command::Checkpoint { note } => checkpoint(events, now, note.as_str()),
        Command::Resume => resume(events, now),
        Command::Stop => stop(events, now),
        Command::PlanAdd { description, duration_minutes } => plan_add(
            events,
            now,
            description.as_str(),
            *duration_minutes,
        ),
        Command::PlanUpdate { item_number, description, duration_minutes, status } => plan_update(
            events,
            now,
            *item_number,
            as_slice(description),
            *duration_minutes,
            as_slice(status),
        ),
        Command::PlanRemove { item_number } => plan_remove(events, now, *item_number),
        Command::PlanRevise { session_id: revised, base_session_events, plan, model } =>
            plan_revise(
            events,
            now,
            *revised,
            base_session_events.as_slice(),
            plan.clone(),
            model.as_str(),
        ),
    }
}

/// Carries out a command now, as the system clock has it. A session that it starts gets a fresh
/// name.
pub fn run_command(events: &[StoredEvent], command: &Command) -> (res: Result<Outcome, LokinError>)
    ensures
        exists|id: SessionId, now: Timestamp|
            0 <= now@.nanos && time::in_calendar(now@.nanos) && !now@.leap
                && session::is_version_4(id.value) && error::result_view(res)
                == #[trigger] decided(session::views(events@), id, now@, command@),
{
    let now = Timestamp::now();
    let session_id = SessionId::random();
    decide(events, session_id, now, command)
}

} // verus!
