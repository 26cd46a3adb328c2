//! What the user reads: sessions, plans, and the outcomes of commands.
//!
//! Every text consists of lines, each with a newline at its end.

use vstd::prelude::*;

use crate::commands::{Command, CommandView, Outcome, OutcomeView, PlanMutationResult, PlanMutationView};
use crate::session;
use crate::session::{
    EffectiveState, EventView, Plan, PlanItem, PlanItemStatus, PlanItemView, PlanSourceView,
    ProjectionView, SessionEvent, SessionId, SessionProjection,
};
use crate::text;
use crate::time;
use crate::time::{Duration, Instant, Timestamp};

verus! {

/// A step of a plan, as the item with the number `number`.
pub open spec fn item_row(item: PlanItemView, number: nat) -> Seq<char> {
    "  "@ + text::decimal(number) + ". ["@ + item.status.spec_name() + "] "@ + item.description
        + " ("@ + text::decimal(item.duration_minutes as nat) + "m)\n"@
}

/// The steps of a plan, numbered from one.
pub open spec fn plan_items(plan: Option<Seq<PlanItemView>>) -> Seq<char> {
    match plan {
        None => "  No plan yet. Add one with `lokin plan add`.\n"@,
        Some(plan) => if plan.len() == 0 {
            "  Empty plan.\n"@
        } else {
            text::concatenated(Seq::new(plan.len(), |i: int| item_row(plan[i], (i + 1) as nat)))
        },
    }
}

/// A step of a plan, as the item with the number `number`.
fn render_item(item: &PlanItem, number: u128) -> (res: String)
    ensures
        res@ == item_row(item@, number as nat),
{
    "  ".to_owned().concat(text::decimal_text(number).as_str()).concat(". [").concat(
        item.status.name(),
    ).concat("] ").concat(item.description.as_str()).concat(" (").concat(
        text::decimal_text(item.duration_minutes as u128).as_str(),
    ).concat("m)\n")
}

/// The steps of a plan, numbered from one.
pub fn render_plan_items(plan: Option<&Plan>) -> (res: String)
    ensures
        res@ == plan_items(
            match plan {
                Some(plan) => Some(plan@),
                None => None,
            },
        ),
{
    match plan {
        None => "  No plan yet. Add one with `lokin plan add`.\n".to_owned(),
        Some(plan) => {
            if plan.items.len() == 0 {
                return "  Empty plan.\n".to_owned();
            }
            let mut rows: Vec<String> = Vec::new();
            let mut i: usize = 0;
            while i < plan.items.len()
                invariant
                    i <= plan.items.len(),
                    rows.len() == i,
                    forall|j: int|
                        0 <= j < i ==> (#[trigger] rows@[j])@ == item_row(
                            plan@[j],
                            (j + 1) as nat,
                        ),
                decreases plan.items.len() - i,
            {
                rows.push(render_item(&plan.items[i], i as u128 + 1));
                i = i + 1;
            }
            assert(text::texts(rows@) =~= Seq::new(
                plan@.len(),
                |i: int| item_row(plan@[i], (i + 1) as nat),
            ));
            text::concatenate(rows.as_slice())
        },
    }
}

/// A plan that a model proposes, and the time that there is for it.
pub open spec fn proposal(plan: Seq<PlanItemView>, remaining: int) -> Seq<char> {
    "\nProposed plan:\n"@ + plan_items(Some(plan)) + "Total planned: "@ + text::decimal(
        session::total_minutes(plan),
    ) + " minutes\nAvailable wall-clock: "@ + time::shown_span(remaining) + "\n\n"@
}

/// A plan that a model proposes, and the time that there is for it.
pub fn render_proposed_plan(plan: &Plan, remaining_wall_clock: Duration) -> (res: String)
    ensures
        res@ == proposal(plan@, remaining_wall_clock@),
{
    "\nProposed plan:\n".to_owned().concat(render_plan_items(Some(plan)).as_str()).concat(
        "Total planned: ",
    ).concat(text::decimal_text(plan.total_minutes()).as_str()).concat(
        " minutes\nAvailable wall-clock: ",
    ).concat(time::format_duration(remaining_wall_clock).as_str()).concat("\n\n")
}

/// The plan of a session: its steps and, if there is a plan, where it came from, how long it is and
/// how much time is left.
pub open spec fn plan_text(p: ProjectionView) -> Seq<char> {
    let head = "Plan for session "@ + session::hyphenated(p.metadata.session_id.value) + ":\n"@
        + plan_items(p.current_plan);
    match p.current_plan {
        None => head,
        Some(plan) => head + (if p.plan_revisions.len() == 0 {
            ""@
        } else {
            "Source: "@ + p.plan_revisions.last().source.text() + "\n"@
        }) + "Total planned: "@ + text::decimal(session::total_minutes(plan))
            + " minutes\nRemaining wall-clock: "@ + time::shown_span(p.remaining_wall_clock)
            + "\n"@,
    }
}

/// The plan of a session.
pub fn render_plan(projection: &SessionProjection) -> (res: String)
    ensures
        res@ == plan_text(projection@),
{
    let mut res = "Plan for session ".to_owned();
    res.append(projection.metadata.session_id.text().as_str());
    res.append(":\n");
    match &projection.current_plan {
        None => {
            res.append(render_plan_items(None).as_str());
        },
        Some(plan) => {
            res.append(render_plan_items(Some(plan)).as_str());
            let revisions = &projection.plan_revisions;
            if revisions.len() == 0 {
                res.append("");
            } else {
                let source = revisions[revisions.len() - 1].source.text();
                res.append("Source: ".to_owned().concat(source.as_str()).concat("\n").as_str());
            }
            res.append("Total planned: ");
            res.append(text::decimal_text(plan.total_minutes()).as_str());
            res.append(" minutes\nRemaining wall-clock: ");
            res.append(time::format_duration(projection.remaining_wall_clock).as_str());
            res.append("\n");
        },
    }
    res
}

/// A label and what it stands for, on one line.
pub open spec fn labelled(label: Seq<char>, value: Seq<char>) -> Seq<char> {
    label + ": "@ + value + "\n"@
}

/// A label and what it stands for, on one line.
fn labelled_line(label: &str, value: &str) -> (res: String)
    ensures
        res@ == labelled(label@, value@),
{
    label.to_owned().concat(": ").concat(value).concat("\n")
}

/// How far a plan has come.
pub open spec fn plan_progress(plan: Option<Seq<PlanItemView>>) -> Seq<char> {
    match plan {
        None => "Plan: none\n"@,
        Some(plan) => "Plan: "@ + text::decimal(session::completed_items(plan)) + "/"@
            + text::decimal(plan.len()) + " item(s) completed\n"@,
    }
}

/// A session at a glance, with the texts for its start, its deadline and its stop.
pub open spec fn session_text_at(
    p: ProjectionView,
    started: Seq<char>,
    deadline: Seq<char>,
    stopped: Option<Seq<char>>,
) -> Seq<char> {
    labelled("Session"@, session::hyphenated(p.metadata.session_id.value)) + labelled(
        "Goal"@,
        p.metadata.goal,
    ) + labelled("State"@, p.effective_state.spec_name()) + labelled("Started"@, started)
        + labelled("Deadline"@, deadline) + (match stopped {
        Some(stopped) => labelled("Stopped"@, stopped),
        None => ""@,
    }) + labelled("Wall-clock elapsed"@, time::shown_span(p.wall_clock_elapsed)) + labelled(
        "Remaining wall-clock"@,
        time::shown_span(p.remaining_wall_clock),
    ) + labelled("Active work"@, time::shown_span(p.active_work_duration)) + labelled(
        "Paused"@,
        time::shown_span(p.paused_duration),
    ) + (match p.current_pause_duration {
        Some(d) => labelled("Current pause"@, time::shown_span(d)),
        None => ""@,
    }) + labelled("Checkpoints"@, text::decimal(p.checkpoints.len())) + plan_progress(
        p.current_plan,
    )
}

/// A session at a glance.
pub open spec fn session_text(p: ProjectionView) -> Seq<char> {
    session_text_at(
        p,
        time::shown_instant(p.metadata.start_time),
        time::shown_instant(p.metadata.end()),
        match p.stopped_at {
            Some(t) => Some(time::shown_instant(t)),
            None => None,
        },
    )
}

/// A session at a glance.
pub fn render_projection(projection: &SessionProjection) -> (res: String)
    requires
        time::in_calendar(projection@.metadata.deadline()),
    ensures
        res@ == session_text(projection@),
{
    let started = time::format_timestamp(projection.metadata.start_time);
    let deadline = time::format_timestamp(projection.metadata.deadline());
    match projection.stopped_at {
        Some(stopped_at) => {
            let stopped = time::format_timestamp(stopped_at);
            describe_session(
                projection,
                started.as_str(),
                deadline.as_str(),
                Some(stopped.as_str()),
            )
        },
        None => describe_session(projection, started.as_str(), deadline.as_str(), None),
    }
}

/// A session at a glance, with the texts for its start, its deadline and its stop.
pub fn describe_session(
    projection: &SessionProjection,
    started: &str,
    deadline: &str,
    stopped: Option<&str>,
) -> (res: String)
    ensures
        res@ == session_text_at(projection@, started@, deadline@, text::optional_text(stopped)),
{
    let metadata = &projection.metadata;
    let mut res = labelled_line("Session", metadata.session_id.text().as_str());
    res.append(labelled_line("Goal", metadata.goal.as_str()).as_str());
    res.append(labelled_line("State", projection.effective_state.name()).as_str());
    res.append(labelled_line("Started", started).as_str());
    res.append(labelled_line("Deadline", deadline).as_str());
    match stopped {
        Some(stopped) => {
            res.append(labelled_line("Stopped", stopped).as_str());
        },
        None => {
            res.append("");
        },
    }
    res.append(
        labelled_line(
            "Wall-clock elapsed",
            time::format_duration(projection.wall_clock_elapsed).as_str(),
        ).as_str(),
    );
    res.append(
        labelled_line(
            "Remaining wall-clock",
            time::format_duration(projection.remaining_wall_clock).as_str(),
        ).as_str(),
    );
    res.append(
        labelled_line(
            "Active work",
            time::format_duration(projection.active_work_duration).as_str(),
        ).as_str(),
    );
    res.append(
        labelled_line("Paused", time::format_duration(projection.paused_duration).as_str()).as_str(),
    );
    match projection.current_pause_duration {
        Some(current_pause) => {
            res.append(
                labelled_line(
                    "Current pause",
                    time::format_duration(current_pause).as_str(),
                ).as_str(),
            );
        },
        None => {
            res.append("");
        },
    }
    res.append(
        labelled_line(
            "Checkpoints",
            text::decimal_text(projection.checkpoints.len() as u128).as_str(),
        ).as_str(),
    );
    match &projection.current_plan {
        None => {
            res.append("Plan: none\n");
        },
        Some(plan) => {
            let progress = "Plan: ".to_owned().concat(
                text::decimal_text(plan.completed_items() as u128).as_str(),
            ).concat("/").concat(text::decimal_text(plan.items.len() as u128).as_str()).concat(
                " item(s) completed\n",
            );
            res.append(progress.as_str());
        },
    }
    res
}

/// What the user is told of a session that has started, with the texts for its start and its
/// deadline.
pub open spec fn started_text_at(
    id: SessionId,
    goal: Seq<char>,
    duration_minutes: u16,
    started: Seq<char>,
    deadline: Seq<char>,
) -> Seq<char> {
    "Session started.\nID: "@ + session::hyphenated(id.value) + "\nGoal: "@ + goal
        + "\nStarted: "@ + started + "\nBudget: "@ + text::decimal(duration_minutes as nat)
        + " minutes (wall clock)\nDeadline: "@ + deadline + "\n"@
}

/// What the user is told of a session that has started.
pub open spec fn started_text(id: SessionId, goal: Seq<char>, duration_minutes: u16, start: Instant) -> Seq<
    char,
> {
    started_text_at(
        id,
        goal,
        duration_minutes,
        time::shown_instant(start),
        time::shown_instant(start.plus_minutes(duration_minutes)),
    )
}

/// What the user is told of a session that has started, with the texts for its start and its
/// deadline.
pub fn describe_start(
    session_id: SessionId,
    goal: &str,
    duration_minutes: u16,
    started: &str,
    deadline: &str,
) -> (res: String)
    ensures
        res@ == started_text_at(session_id, goal@, duration_minutes, started@, deadline@),
{
    "Session started.\nID: ".to_owned().concat(session_id.text().as_str()).concat(
        "\nGoal: ",
    ).concat(goal).concat("\nStarted: ").concat(started).concat("\nBudget: ").concat(
        text::decimal_text(duration_minutes as u128).as_str(),
    ).concat(" minutes (wall clock)\nDeadline: ").concat(deadline).concat("\n")
}

/// The deadline of a session that starts, as the user sees it.
fn deadline_text(started_at: Timestamp, duration_minutes: u16) -> (res: String)
    requires
        time::in_calendar(started_at@.nanos + duration_minutes * time::MINUTE),
    ensures
        res@ == time::shown_instant(started_at@.plus_minutes(duration_minutes)),
{
    match started_at.plus_minutes(duration_minutes) {
        Some(deadline) => time::format_timestamp(deadline),
        None => String::new(),
    }
}

/// What the user is told of a session that has started.
pub fn render_started_session(
    session_id: SessionId,
    goal: &str,
    duration_minutes: u16,
    started_at: Timestamp,
) -> (res: String)
    requires
        time::in_calendar(started_at@.nanos + duration_minutes * time::MINUTE),
    ensures
        res@ == started_text(session_id, goal@, duration_minutes, started_at@),
{
    let started = time::format_timestamp(started_at);
    let deadline = deadline_text(started_at, duration_minutes);
    describe_start(session_id, goal, duration_minutes, started.as_str(), deadline.as_str())
}

/// What the user is warned of after a plan was changed by hand: that it is longer than the session,
/// and that it is longer than what is left of it.
pub open spec fn warnings(change: PlanMutationView) -> Seq<char> {
    let total = session::total_minutes(change.plan);
    (if total > change.session_budget_minutes {
        "Warning: the plan totals "@ + text::decimal(total) + " minutes, exceeding the "@
            + text::decimal(change.session_budget_minutes as nat) + "-minute session budget.\n"@
    } else {
        ""@
    }) + (if total * time::MINUTE > change.remaining_wall_clock {
        "Warning: the plan exceeds the current remaining wall-clock time ("@ + time::shown_span(
            change.remaining_wall_clock,
        ) + ").\n"@
    } else {
        ""@
    })
}

/// What the user is warned of after a plan was changed by hand.
pub fn render_plan_warnings(result: &PlanMutationResult) -> (res: String)
    ensures
        res@ == warnings(result@),
{
    let total_minutes: u128 = result.plan.total_minutes();
    let mut res: String = if total_minutes > result.session_budget_minutes as u128 {
        "Warning: the plan totals ".to_owned().concat(
            text::decimal_text(total_minutes).as_str(),
        ).concat(" minutes, exceeding the ").concat(
            text::decimal_text(result.session_budget_minutes as u128).as_str(),
        ).concat("-minute session budget.\n")
    } else {
        "".to_owned()
    };
    let second: String = if total_minutes as i128 * time::MINUTE > result.remaining_wall_clock.nanos {
        "Warning: the plan exceeds the current remaining wall-clock time (".to_owned().concat(
            time::format_duration(result.remaining_wall_clock).as_str(),
        ).concat(").\n")
    } else {
        "".to_owned()
    };
    res.append(second.as_str());
    res
}

/// What the user reads behind the name of an event.
pub open spec fn detail(event: EventView) -> Seq<char> {
    match event {
        EventView::SessionStarted { goal, duration_minutes } => " — "@ + goal + " ("@
            + text::decimal(duration_minutes as nat) + "m)"@,
        EventView::CheckpointAdded { note } => " — "@ + note,
        EventView::PlanCreated { plan, source } => " — "@ + text::decimal(plan.len())
            + " item(s), source: "@ + source.text(),
        EventView::PlanRevised { plan, source } => " — "@ + text::decimal(plan.len())
            + " item(s), source: "@ + source.text(),
        _ => ""@,
    }
}

/// What the user reads behind the name of an event.
pub fn event_detail(event: &SessionEvent) -> (res: String)
    ensures
        res@ == detail(event@),
{
    match event {
        SessionEvent::SessionStarted { goal, duration_minutes } => " — ".to_owned().concat(
            goal.as_str(),
        ).concat(" (").concat(text::decimal_text(*duration_minutes as u128).as_str()).concat("m)"),
        SessionEvent::CheckpointAdded { note } => " — ".to_owned().concat(note.as_str()),
        SessionEvent::PlanCreated { plan, source } => " — ".to_owned().concat(
            text::decimal_text(plan.items.len() as u128).as_str(),
        ).concat(" item(s), source: ").concat(source.text().as_str()),
        SessionEvent::PlanRevised { plan, source } => " — ".to_owned().concat(
            text::decimal_text(plan.items.len() as u128).as_str(),
        ).concat(" item(s), source: ").concat(source.text().as_str()),
        _ => "".to_owned(),
    }
}

/// What the user is told of a command that was carried out, with the texts for the instant and for
/// the deadline of a session that it started.
pub open spec fn report_text_at(
    command: CommandView,
    outcome: OutcomeView,
    at: Seq<char>,
    deadline: Seq<char>,
) -> Seq<char> {
    let id = session::hyphenated(outcome.session_id.value);
    match command {
        CommandView::Start { goal, duration_minutes } => started_text_at(
            outcome.session_id,
            text::trimmed(goal),
            duration_minutes,
            at,
            deadline,
        ),
        CommandView::StartWithPlan { goal, duration_minutes, plan, model } => started_text_at(
            outcome.session_id,
            goal,
            duration_minutes,
            at,
            deadline,
        ) + "LLM plan saved from Groq ("@ + model + ").\n"@,
        CommandView::Pause { note } => "Session "@ + id + " paused at "@ + at + ".\n"@ + (
        if note is Some {
            "Checkpoint recorded.\n"@
        } else {
            ""@
        }) + "The wall-clock deadline has not changed.\n"@,
        CommandView::Checkpoint { note } => "Checkpoint added to session "@ + id + " at "@ + at
            + ".\n"@,
        CommandView::Resume => "Session "@ + id + " resumed at "@ + at + ".\n"@,
        CommandView::Stop => "Session "@ + id + " stopped at "@ + at
            + ".\nIts complete event history has been preserved.\n"@,
        CommandView::PlanAdd { description, duration_minutes } => "Plan item added; "@ + (
        if outcome.plan_change->0.created {
            "initial"@
        } else {
            "revised"@
        }) + " snapshot saved.\n"@ + warnings(outcome.plan_change->0),
        CommandView::PlanUpdate { item_number, description, duration_minutes, status } =>
            "Plan item "@ + text::decimal(item_number as nat)
            + " updated; revised snapshot saved.\n"@ + warnings(outcome.plan_change->0),
        CommandView::PlanRemove { item_number } => "Plan item "@ + text::decimal(
            item_number as nat,
        ) + " removed; revised snapshot saved.\n"@ + warnings(outcome.plan_change->0),
        CommandView::PlanRevise { session_id, base, plan, model } =>
            "LLM plan revision saved from Groq ("@ + model + ").\n"@,
    }
}

/// How long the session is that a command starts; no time, if it starts none.
pub open spec fn started_minutes(command: CommandView) -> u16 {
    match command {
        CommandView::Start { goal, duration_minutes } => duration_minutes,
        CommandView::StartWithPlan { goal, duration_minutes, plan, model } => duration_minutes,
        _ => 0,
    }
}

/// What the user is told of a command that was carried out.
pub open spec fn report_text(command: CommandView, outcome: OutcomeView) -> Seq<char> {
    report_text_at(
        command,
        outcome,
        time::shown_instant(outcome.occurred_at),
        time::shown_instant(outcome.occurred_at.plus_minutes(started_minutes(command))),
    )
}

/// The outcome has a changed plan where the command changes it by hand.
pub open spec fn has_change(command: CommandView, outcome: OutcomeView) -> bool {
    command is PlanAdd || command is PlanUpdate || command is PlanRemove
        ==> outcome.plan_change is Some
}

/// The outcome is one of this command: it has a changed plan where the command changes it by hand,
/// and the deadline of a session that it starts lies within the calendar.
pub open spec fn reportable(command: CommandView, outcome: OutcomeView) -> bool {
    &&& has_change(command, outcome)
    &&& command.starts() ==> time::in_calendar(
        outcome.occurred_at.nanos + started_minutes(command) * time::MINUTE,
    )
}

/// The warnings for a plan that was changed by hand.
fn change_warnings(change: &Option<PlanMutationResult>) -> (res: String)
    requires
        change is Some,
    ensures
        res@ == warnings(change->0@),
{
    match change {
        Some(change) => render_plan_warnings(change),
        None => String::new(),
    }
}

/// What the user is told of a command that was carried out.
pub fn report(command: &Command, outcome: &Outcome) -> (res: String)
    requires
        reportable(command@, outcome@),
    ensures
        res@ == report_text(command@, outcome@),
{
    let at = time::format_timestamp(outcome.occurred_at);
    let deadline = match command {
        Command::Start { goal, duration_minutes } => deadline_text(
            outcome.occurred_at,
            *duration_minutes,
        ),
        Command::StartWithPlan { goal, duration_minutes, plan, model } => deadline_text(
            outcome.occurred_at,
            *duration_minutes,
        ),
        _ => String::new(),
    };
    describe_outcome(command, outcome, at.as_str(), deadline.as_str())
}

/// What the user is told of a command that was carried out, with the texts for the instant and for
/// the deadline of a session that it started.
pub fn describe_outcome(command: &Command, outcome: &Outcome, at: &str, deadline: &str) -> (res:
    String)
    requires
        has_change(command@, outcome@),
    ensures
        res@ == report_text_at(command@, outcome@, at@, deadline@),
{
    let id = outcome.session_id.text();
    match command {
        Command::Start { goal, duration_minutes } => describe_start(
            outcome.session_id,
            text::trim(goal.as_str()).as_str(),
            *duration_minutes,
            at,
            deadline,
        ),
        Command::StartWithPlan { goal, duration_minutes, plan, model } => describe_start(
            outcome.session_id,
            goal.as_str(),
            *duration_minutes,
            at,
            deadline,
        ).concat("LLM plan saved from Groq (").concat(model.as_str()).concat(").\n"),
        Command::Pause { note } => {
            let noted = if note.is_some() {
                "Checkpoint recorded.\n"
            } else {
                ""
            };
            "Session ".to_owned().concat(id.as_str()).concat(" paused at ").concat(
                at,
            ).concat(".\n").concat(noted).concat("The wall-clock deadline has not changed.\n")
        },
        Command::Checkpoint { note } => "Checkpoint added to session ".to_owned().concat(
            id.as_str(),
        ).concat(" at ").concat(at).concat(".\n"),
        Command::Resume => "Session ".to_owned().concat(id.as_str()).concat(" resumed at ").concat(
            at,
        ).concat(".\n"),
        Command::Stop => "Session ".to_owned().concat(id.as_str()).concat(" stopped at ").concat(
            at,
        ).concat(".\nIts complete event history has been preserved.\n"),
        Command::PlanAdd { description, duration_minutes } => {
            let created = match &outcome.plan_change {
                Some(change) => change.created,
                None => false,
            };
            let kind = if created {
                "initial"
            } else {
                "revised"
            };
            "Plan item added; ".to_owned().concat(kind).concat(" snapshot saved.\n").concat(
                change_warnings(&outcome.plan_change).as_str(),
            )
        },
        Command::PlanUpdate { item_number, description, duration_minutes, status } =>
            "Plan item ".to_owned().concat(
            text::decimal_text(*item_number as u128).as_str(),
        ).concat(" updated; revised snapshot saved.\n").concat(
            change_warnings(&outcome.plan_change).as_str(),
        ),
        Command::PlanRemove { item_number } => "Plan item ".to_owned().concat(
            text::decimal_text(*item_number as u128).as_str(),
        ).concat(" removed; revised snapshot saved.\n").concat(
            change_warnings(&outcome.plan_change).as_str(),
        ),
        Command::PlanRevise { session_id, base_session_events, plan, model } =>
            "LLM plan revision saved from Groq (".to_owned().concat(model.as_str()).concat(").\n"),
    }
}

/// Every step of a plan is shown on a line of its own, in its place, with its number, status,
/// description and minutes.
pub proof fn every_step_is_shown(plan: Seq<PlanItemView>, item: PlanItemView)
    ensures
        plan_items(None) == "  No plan yet. Add one with `lokin plan add`.\n"@,
        plan_items(Some(Seq::empty())) == "  Empty plan.\n"@,
        plan_items(Some(plan.push(item))) == (if plan.len() == 0 {
            Seq::empty()
        } else {
            plan_items(Some(plan))
        }) + ("  "@ + text::decimal((plan.len() + 1) as nat) + ". ["@ + item.status.spec_name()
            + "] "@ + item.description + " ("@ + text::decimal(item.duration_minutes as nat)
            + "m)\n"@),
{
    let rows = Seq::new(plan.len(), |i: int| item_row(plan[i], (i + 1) as nat));
    let longer = plan.push(item);
    let all = Seq::new(longer.len(), |i: int| item_row(longer[i], (i + 1) as nat));
    let row = item_row(item, (plan.len() + 1) as nat);
    assert(all =~= rows.push(row));
    assert(all.drop_last() =~= rows);
    if plan.len() == 0 {
        assert(text::concatenated(rows) =~= Seq::empty());
    }
}

/// A proposal shows the plan, all of its minutes, and the time that there is for it.
pub proof fn a_proposal_shows_the_plan(plan: Seq<PlanItemView>, remaining: int)
    ensures
        proposal(plan, remaining) == "\nProposed plan:\n"@ + plan_items(Some(plan))
            + "Total planned: "@ + text::decimal(
            plan.fold_left(
                0int,
                |sum: int, item: PlanItemView| sum + item.duration_minutes,
            ) as nat,
        ) + " minutes\nAvailable wall-clock: "@ + time::shown_span(remaining) + "\n\n"@,
{
    session::a_plan_takes_as_long_as_its_steps(plan, Seq::empty());
}

/// What is shown of the plan of a session: its steps and, if there is one, who made it last, all of
/// its minutes, and the time that is left.
pub proof fn the_plan_of_a_session_is_shown(p: ProjectionView)
    ensures
        p.current_plan is None ==> plan_text(p) == "Plan for session "@ + session::hyphenated(
            p.metadata.session_id.value,
        ) + ":\n"@ + plan_items(None),
        p.current_plan is Some && p.plan_revisions.len() > 0 ==> plan_text(p)
            == "Plan for session "@ + session::hyphenated(p.metadata.session_id.value) + ":\n"@
            + plan_items(p.current_plan) + ("Source: "@ + (match p.plan_revisions.last().source {
            PlanSourceView::Manual => "manual"@,
            PlanSourceView::Llm { provider, model } => "llm ("@ + provider + "/"@ + model + ")"@,
        }) + "\n"@) + "Total planned: "@ + text::decimal(
            p.current_plan->0.fold_left(
                0int,
                |sum: int, item: PlanItemView| sum + item.duration_minutes,
            ) as nat,
        ) + " minutes\nRemaining wall-clock: "@ + time::shown_span(p.remaining_wall_clock)
            + "\n"@,
{
    if p.current_plan is Some {
        session::a_plan_takes_as_long_as_its_steps(p.current_plan->0, Seq::empty());
    }
}

/// A session is shown as it is: each of its lines holds what it is labelled as. The line for the
/// stop is there if it was stopped, and the one for the present pause if it is paused.
pub proof fn a_session_is_shown_as_it_is(p: ProjectionView)
    ensures
        session_text(p) == "Session"@ + ": "@ + session::hyphenated(p.metadata.session_id.value)
            + "\n"@ + ("Goal"@ + ": "@ + p.metadata.goal + "\n"@) + ("State"@ + ": "@ + (
        match p.effective_state {
            EffectiveState::Running => "Running"@,
            EffectiveState::Paused => "Paused"@,
            EffectiveState::Completed => "Completed"@,
            EffectiveState::Stopped => "Stopped"@,
        }) + "\n"@) + ("Started"@ + ": "@ + time::shown_instant(p.metadata.start_time) + "\n"@) + (
        "Deadline"@ + ": "@ + time::shown_instant(
            p.metadata.start_time.plus_minutes(p.metadata.duration_minutes),
        ) + "\n"@) + (match p.stopped_at {
            Some(t) => "Stopped"@ + ": "@ + time::shown_instant(t) + "\n"@,
            None => ""@,
        }) + ("Wall-clock elapsed"@ + ": "@ + time::shown_span(p.wall_clock_elapsed) + "\n"@) + (
        "Remaining wall-clock"@ + ": "@ + time::shown_span(p.remaining_wall_clock) + "\n"@) + (
        "Active work"@ + ": "@ + time::shown_span(p.active_work_duration) + "\n"@) + ("Paused"@
            + ": "@ + time::shown_span(p.paused_duration) + "\n"@) + (
        match p.current_pause_duration {
            Some(d) => "Current pause"@ + ": "@ + time::shown_span(d) + "\n"@,
            None => ""@,
        }) + ("Checkpoints"@ + ": "@ + text::decimal(p.checkpoints.len()) + "\n"@) + (
        match p.current_plan {
            None => "Plan: none\n"@,
            Some(plan) => "Plan: "@ + text::decimal(
                plan.filter(
                    |item: PlanItemView| item.status == PlanItemStatus::Completed,
                ).len(),
            ) + "/"@ + text::decimal(plan.len()) + " item(s) completed\n"@,
        }),
{
    if p.current_plan is Some {
        session::completed_steps_are_counted(
            p.current_plan->0,
            -1,
            PlanItemView {
                description: seq![],
                duration_minutes: 0,
                status: PlanItemStatus::Pending,
            },
        );
    }
}

/// The user is warned of a plan exactly if it takes longer than the session, and exactly if it
/// takes longer than what is left of it.
pub proof fn warnings_come_when_a_plan_is_too_long(change: PlanMutationView)
    ensures
        ({
            let total = change.plan.fold_left(
                0int,
                |sum: int, item: PlanItemView| sum + item.duration_minutes,
            );
            let too_long = "Warning: the plan totals "@ + text::decimal(total as nat)
                + " minutes, exceeding the "@ + text::decimal(change.session_budget_minutes as nat)
                + "-minute session budget.\n"@;
            let too_late = "Warning: the plan exceeds the current remaining wall-clock time ("@
                + time::shown_span(change.remaining_wall_clock) + ").\n"@;
            warnings(change) == (if total > change.session_budget_minutes {
                too_long
            } else {
                ""@
            }) + (if total * 60_000_000_000 > change.remaining_wall_clock {
                too_late
            } else {
                ""@
            })
        }),
{
    session::a_plan_takes_as_long_as_its_steps(change.plan, Seq::empty());
}

/// What is told of an event besides its name: what it holds, and nothing if it holds nothing.
pub proof fn an_event_is_told_with_what_it_holds(event: EventView)
    ensures
        detail(event) == match event {
            EventView::SessionStarted { goal, duration_minutes } => " — "@ + goal + " ("@
                + text::decimal(duration_minutes as nat) + "m)"@,
            EventView::CheckpointAdded { note } => " — "@ + note,
            EventView::PlanCreated { plan, source } => " — "@ + text::decimal(plan.len())
                + " item(s), source: "@ + source.text(),
            EventView::PlanRevised { plan, source } => " — "@ + text::decimal(plan.len())
                + " item(s), source: "@ + source.text(),
            EventView::SessionPaused => ""@,
            EventView::SessionResumed => ""@,
            EventView::SessionStopped => ""@,
        },
        event.name() == match event {
            EventView::SessionStarted { .. } => "session_started"@,
            EventView::SessionPaused => "session_paused"@,
            EventView::SessionResumed => "session_resumed"@,
            EventView::CheckpointAdded { .. } => "checkpoint_added"@,
            EventView::PlanCreated { .. } => "plan_created"@,
            EventView::PlanRevised { .. } => "plan_revised"@,
            EventView::SessionStopped => "session_stopped"@,
        },
{
}

/// What the user is told of a command names the session and the instant that it was about, and for
/// a start the goal as it was kept, the budget and the deadline. Of a plan that was changed by hand
/// it tells what was done, to which step, and what there is to warn of.
pub proof fn a_report_tells_what_was_done(command: CommandView, outcome: OutcomeView)
    ensures
        ({
            let id = session::hyphenated(outcome.session_id.value);
            let at = time::shown_instant(outcome.occurred_at);
            let started = |goal: Seq<char>, minutes: u16|
                "Session started.\nID: "@ + id + "\nGoal: "@ + goal + "\nStarted: "@ + at
                    + "\nBudget: "@ + text::decimal(minutes as nat)
                    + " minutes (wall clock)\nDeadline: "@ + time::shown_instant(
                    outcome.occurred_at.plus_minutes(minutes),
                ) + "\n"@;
            report_text(command, outcome) == match command {
                CommandView::Start { goal, duration_minutes } => started(
                    text::trimmed(goal),
                    duration_minutes,
                ),
                CommandView::StartWithPlan { goal, duration_minutes, plan, model } => started(
                    goal,
                    duration_minutes,
                ) + "LLM plan saved from Groq ("@ + model + ").\n"@,
                CommandView::Pause { note: None } => "Session "@ + id + " paused at "@ + at
                    + ".\n"@ + ""@ + "The wall-clock deadline has not changed.\n"@,
                CommandView::Pause { note: Some(_) } => "Session "@ + id + " paused at "@ + at
                    + ".\n"@ + "Checkpoint recorded.\n"@
                    + "The wall-clock deadline has not changed.\n"@,
                CommandView::Checkpoint { .. } => "Checkpoint added to session "@ + id + " at "@
                    + at + ".\n"@,
                CommandView::Resume => "Session "@ + id + " resumed at "@ + at + ".\n"@,
                CommandView::Stop => "Session "@ + id + " stopped at "@ + at
                    + ".\nIts complete event history has been preserved.\n"@,
                CommandView::PlanAdd { .. } => "Plan item added; "@ + (
                if outcome.plan_change->0.created {
                    "initial"@
                } else {
                    "revised"@
                }) + " snapshot saved.\n"@ + warnings(outcome.plan_change->0),
                CommandView::PlanUpdate { item_number, .. } => "Plan item "@ + text::decimal(
                    item_number as nat,
                ) + " updated; revised snapshot saved.\n"@ + warnings(outcome.plan_change->0),
                CommandView::PlanRemove { item_number } => "Plan item "@ + text::decimal(
                    item_number as nat,
                ) + " removed; revised snapshot saved.\n"@ + warnings(outcome.plan_change->0),
                CommandView::PlanRevise { model, .. } => "LLM plan revision saved from Groq ("@
                    + model + ").\n"@,
            }
        }),
{
}

} // verus!
