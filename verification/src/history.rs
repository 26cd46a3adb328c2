//! Looking at sessions, past and present. Nothing here changes the log.

use vstd::prelude::*;

use crate::commands;
use crate::error;
use crate::error::{ErrorView, LokinError};
use crate::render;
use crate::replay;
use crate::session;
use crate::session::{
    Checkpoint, CheckpointView, EffectiveState, PlanRevision, PlanRevisionView, ProjectionView,
    SessionId, SessionProjection, StoredEvent, StoredEventView,
};
use crate::text;
use crate::time;
use crate::time::{Instant, Timestamp};

verus! {

/// The sessions whose names begin with `prefix`.
pub open spec fn named(sessions: Seq<ProjectionView>, prefix: Seq<char>) -> Seq<ProjectionView> {
    sessions.filter(
        |p: ProjectionView|
            text::has_prefix(session::hyphenated(p.metadata.session_id.value), prefix),
    )
}

/// The one session whose name begins with `prefix`, which is what the user's `reference` was taken
/// for.
pub open spec fn found_by_prefix(
    sessions: Seq<ProjectionView>,
    prefix: Seq<char>,
    reference: Seq<char>,
) -> Result<ProjectionView, ErrorView> {
    let matching = named(sessions, prefix);
    if matching.len() == 0 {
        Err(ErrorView::UnknownSession(reference))
    } else if matching.len() == 1 {
        Ok(matching[0])
    } else {
        Err(
            ErrorView::InvalidInput(
                "Session reference '"@ + reference + "' is ambiguous. Use more of the ID."@,
            ),
        )
    }
}

/// The one session whose name begins with `prefix`.
pub fn find_by_prefix<'a>(
    projections: &'a [SessionProjection],
    prefix: &str,
    reference: &str,
) -> (res: Result<&'a SessionProjection, LokinError>)
    ensures
        error::result_view(res) == found_by_prefix(
            session::views(projections@),
            prefix@,
            reference@,
        ),
        res matches Ok(p) ==> exists|i: int| 0 <= i < projections@.len() && *p == projections@[i],
{
    let ghost all = session::views(projections@);
    let ghost wanted = |p: ProjectionView|
        text::has_prefix(session::hyphenated(p.metadata.session_id.value), prefix@);
    let mut first: Option<usize> = None;
    let mut i: usize = 0;
    proof {
        assert(all.take(0) =~= seq![]);
        reveal(Seq::filter);
        assert(all.take(0).filter(wanted) =~= seq![]);
    }
    while i < projections.len()
        invariant
            i <= projections.len(),
            all == session::views(projections@),
            wanted == (|p: ProjectionView|
                text::has_prefix(session::hyphenated(p.metadata.session_id.value), prefix@)),
            match first {
                None => all.take(i as int).filter(wanted) == Seq::<ProjectionView>::empty(),
                Some(k) => k < projections.len() && all.take(i as int).filter(wanted)
                    == seq![projections@[k as int]@],
            },
        decreases projections.len() - i,
    {
        let ghost next = all.take(i + 1);
        proof {
            assert(next.drop_last() =~= all.take(i as int));
            assert(next.last() == projections@[i as int]@);
            reveal(Seq::filter);
        }
        if text::starts_with(projections[i].metadata.session_id.text().as_str(), prefix) {
            if first.is_some() {
                proof {
                    assert(next.filter(wanted).len() == 2);
                    assert(all =~= next + all.skip(i + 1));
                    Seq::filter_distributes_over_add(next, all.skip(i + 1), wanted);
                }
                return Err(
                    LokinError::InvalidInput(
                        "Session reference '".to_owned().concat(reference).concat(
                            "' is ambiguous. Use more of the ID.",
                        ),
                    ),
                );
            }
            first = Some(i);
            assert(next.filter(wanted) =~= seq![projections@[i as int]@]);
        }
        i = i + 1;
    }
    assert(all.take(i as int) =~= all);
    match first {
        Some(k) => Ok(&projections[k]),
        None => Err(LokinError::UnknownSession(reference.to_owned())),
    }
}

/// The session that the user refers to: by the beginning of its name, in upper or lower case.
pub open spec fn found(sessions: Seq<ProjectionView>, reference: Seq<char>) -> Result<
    ProjectionView,
    ErrorView,
> {
    found_by_prefix(sessions, text::lowered(text::trimmed(reference)), reference)
}

/// The session that the user refers to.
pub fn find_projection<'a>(projections: &'a [SessionProjection], reference: &str) -> (res: Result<
    &'a SessionProjection,
    LokinError,
>)
    ensures
        error::result_view(res) == found(session::views(projections@), reference@),
        res matches Ok(p) ==> exists|i: int| 0 <= i < projections@.len() && *p == projections@[i],
{
    let normalized = text::lower(text::trim(reference).as_str());
    find_by_prefix(projections, normalized.as_str(), reference)
}

/// Every deadline of a readable log lies within the calendar.
proof fn lemma_deadlines(events: Seq<StoredEventView>, now: Instant)
    requires
        replay::first_fault(events) is None,
    ensures
        forall|k: int|
            0 <= k < replay::projections(events, now).len() ==> time::in_calendar(
                (#[trigger] replay::projections(events, now)[k]).metadata.deadline(),
            ),
{
    replay::lemma_sessions(events);
    assert forall|k: int| 0 <= k < replay::projections(events, now).len() implies time::in_calendar(
        (#[trigger] replay::projections(events, now)[k]).metadata.deadline(),
    ) by {
        assert(replay::sessions(events).contains(replay::sessions(events)[k]));
    }
}

/// What the user reads of the last session.
pub open spec fn status_of(sessions: Seq<ProjectionView>) -> Seq<char> {
    if sessions.len() == 0 {
        "No Lokin sessions yet. Start one with `lokin start <goal>`.\n"@
    } else if sessions.last().effective_state == EffectiveState::Stopped {
        "No active Lokin session. Use `lokin history` to inspect past sessions.\n"@
    } else {
        render::session_text(sessions.last())
    }
}

/// What the user reads of the last session of a log.
pub open spec fn status_text(events: Seq<StoredEventView>, now: Instant) -> Result<
    Seq<char>,
    ErrorView,
> {
    match replay::reconstructed(events, now) {
        Err(e) => Err(e),
        Ok(sessions) => Ok(status_of(sessions)),
    }
}

/// Shows the last session, unless it was stopped.
pub fn status(events: &[StoredEvent], now: Timestamp) -> (res: Result<String, LokinError>)
    ensures
        error::result_view(res) == status_text(session::views(events@), now@),
{
    let projections = replay::reconstruct_all(events, now)?;
    if projections.len() == 0 {
        return Ok("No Lokin sessions yet. Start one with `lokin start <goal>`.\n".to_owned());
    }
    let last = &projections[projections.len() - 1];
    proof {
        lemma_deadlines(session::views(events@), now@);
        assert(session::views(projections@).last() == last@);
    }
    if last.effective_state == EffectiveState::Stopped {
        return Ok(
            "No active Lokin session. Use `lokin history` to inspect past sessions.\n".to_owned(),
        );
    }
    Ok(render::render_projection(last))
}

/// What the user reads of the plan of the active session.
pub open spec fn plan_show_text(events: Seq<StoredEventView>, now: Instant) -> Result<
    Seq<char>,
    ErrorView,
> {
    match commands::current(events, now) {
        Err(e) => Err(e),
        Ok(p) => Ok(render::plan_text(p)),
    }
}

/// Shows the plan of the active session.
pub fn plan_show(events: &[StoredEvent], now: Timestamp) -> (res: Result<String, LokinError>)
    ensures
        error::result_view(res) == plan_show_text(session::views(events@), now@),
{
    let projections = replay::reconstruct_all(events, now)?;
    let current = commands::require_active_projection(projections.as_slice())?;
    Ok(render::render_plan(current))
}

/// A session answers a search if its goal, in lower case, holds the query, or if its name begins
/// with it.
pub open spec fn answers(lowered_goal: Seq<char>, id: SessionId, query: Seq<char>) -> bool {
    text::has_infix(lowered_goal, query) || text::has_prefix(session::hyphenated(id.value), query)
}

/// Whether a session answers a search.
pub fn answers_query(lowered_goal: &str, session_id: SessionId, query: &str) -> (res: bool)
    ensures
        res == answers(lowered_goal@, session_id, query@),
{
    text::contains(lowered_goal, query) || text::starts_with(session_id.text().as_str(), query)
}

/// The query that the user searches for: in lower case, without white space around it.
pub open spec fn query_of(search: Option<Seq<char>>) -> Option<Seq<char>> {
    match search {
        None => None,
        Some(search) => Some(text::lowered(text::trimmed(search))),
    }
}

/// The session is to be listed.
pub open spec fn listed(p: ProjectionView, query: Option<Seq<char>>) -> bool {
    match query {
        None => true,
        Some(query) => answers(text::lowered(p.metadata.goal), p.metadata.session_id, query),
    }
}

/// A session on one line of the list.
pub open spec fn history_row(p: ProjectionView) -> Seq<char> {
    history_row_at(p, time::shown_instant(p.metadata.start_time))
}

/// A session on one line of the list, with the text for its start.
pub open spec fn history_row_at(p: ProjectionView, started: Seq<char>) -> Seq<char> {
    started + "  "@ + session::hyphenated(
        p.metadata.session_id.value,
    ) + "  "@ + text::padded_end(p.effective_state.spec_name(), 9) + "  budget "@
        + text::padded_start(text::decimal(p.metadata.duration_minutes as nat) + "m"@, 5)
        + "  active "@ + text::padded_start(time::shown_span(p.active_work_duration), 8)
        + "  paused "@ + text::padded_start(time::shown_span(p.paused_duration), 8) + "  "@
        + p.metadata.goal + "\n"@
}

/// The list of sessions, the last one first.
pub open spec fn history_of(matching: Seq<ProjectionView>) -> Seq<char> {
    if matching.len() == 0 {
        "No sessions found.\n"@
    } else {
        "Lokin history ("@ + text::decimal(matching.len()) + " session(s)):\n"@
            + text::concatenated(
            Seq::new(matching.len(), |i: int| history_row(matching[matching.len() - 1 - i])),
        )
    }
}

/// What the user reads of the sessions of a log that answer a search.
pub open spec fn history_text(
    events: Seq<StoredEventView>,
    now: Instant,
    search: Option<Seq<char>>,
) -> Result<Seq<char>, ErrorView> {
    match replay::reconstructed(events, now) {
        Err(e) => Err(e),
        Ok(sessions) => Ok(
            history_of(sessions.filter(|p: ProjectionView| listed(p, query_of(search)))),
        ),
    }
}

/// A session on one line of the list, with the text for its start.
pub fn describe_history_row(p: &SessionProjection, started: &str) -> (res: String)
    ensures
        res@ == history_row_at(p@, started@),
{
    let budget = text::decimal_text(p.metadata.duration_minutes as u128).concat("m");
    let active = time::format_duration(p.active_work_duration);
    let paused = time::format_duration(p.paused_duration);
    started.to_owned().concat("  ").concat(p.metadata.session_id.text().as_str()).concat("  ").concat(text::pad_end(p.effective_state.name(), 9).as_str()).concat(
        "  budget ",
    ).concat(text::pad_start(budget.as_str(), 5).as_str()).concat("  active ").concat(
        text::pad_start(active.as_str(), 8).as_str(),
    ).concat("  paused ").concat(text::pad_start(paused.as_str(), 8).as_str()).concat("  ").concat(
        p.metadata.goal.as_str(),
    ).concat("\n")
}

/// The list of sessions, the last one first.
pub fn render_history(matching: &[&SessionProjection]) -> (res: String)
    ensures
        res@ == history_of(session::views(matching@)),
{
    if matching.len() == 0 {
        return "No sessions found.\n".to_owned();
    }
    let ghost all = session::views(matching@);
    let mut rows: Vec<String> = Vec::new();
    let mut i: usize = 0;
    while i < matching.len()
        invariant
            i <= matching.len(),
            all == session::views(matching@),
            rows.len() == i,
            forall|j: int|
                0 <= j < i ==> (#[trigger] rows@[j])@ == history_row(all[all.len() - 1 - j]),
        decreases matching.len() - i,
    {
        let p = matching[matching.len() - 1 - i];
        rows.push(
            describe_history_row(p, time::format_timestamp(p.metadata.start_time).as_str()),
        );
        i = i + 1;
    }
    assert(text::texts(rows@) =~= Seq::new(
        all.len(),
        |i: int| history_row(all[all.len() - 1 - i]),
    ));
    "Lokin history (".to_owned().concat(
        text::decimal_text(matching.len() as u128).as_str(),
    ).concat(" session(s)):\n").concat(text::concatenate(rows.as_slice()).as_str())
}

/// Lists the sessions that answer a search; all of them, if there is none.
pub fn history_list(events: &[StoredEvent], now: Timestamp, search: Option<&str>) -> (res: Result<
    String,
    LokinError,
>)
    ensures
        error::result_view(res) == history_text(
            session::views(events@),
            now@,
            text::optional_text(search),
        ),
{
    let projections = replay::reconstruct_all(events, now)?;
    let query: Option<String> = match search {
        Some(value) => Some(text::lower(text::trim(value).as_str())),
        None => None,
    };
    let ghost all = session::views(projections@);
    let ghost wanted = |p: ProjectionView| listed(p, query_of(text::optional_text(search)));
    let mut matching: Vec<&SessionProjection> = Vec::new();
    let mut i: usize = 0;
    proof {
        reveal(Seq::filter);
        assert(session::views(matching@) =~= all.take(0).filter(wanted));
    }
    while i < projections.len()
        invariant
            i <= projections.len(),
            all == session::views(projections@),
            wanted == (|p: ProjectionView| listed(p, query_of(text::optional_text(search)))),
            session::optional_view(query) == query_of(text::optional_text(search)),
            session::views(matching@) == all.take(i as int).filter(wanted),
        decreases projections.len() - i,
    {
        let p = &projections[i];
        let ghost before = session::views(matching@);
        proof {
            reveal(Seq::filter);
            assert(all.take(i + 1).drop_last() =~= all.take(i as int));
            assert(all.take(i + 1).last() == p@);
        }
        let keep = match &query {
            None => true,
            Some(query) => answers_query(
                text::lower(p.metadata.goal.as_str()).as_str(),
                p.metadata.session_id,
                query.as_str(),
            ),
        };
        if keep {
            matching.push(p);
            assert(session::views(matching@) =~= before.push(p@));
        }
        i = i + 1;
    }
    assert(all.take(i as int) =~= all);
    Ok(render_history(matching.as_slice()))
}

/// An instant, and what belongs to it, on one line.
pub open spec fn dated_row(at: Seq<char>, what: Seq<char>) -> Seq<char> {
    "  "@ + at + "  "@ + what + "\n"@
}

/// An instant, and what belongs to it, on one line.
pub fn describe_dated(at: &str, what: &str) -> (res: String)
    ensures
        res@ == dated_row(at@, what@),
{
    "  ".to_owned().concat(at).concat("  ").concat(what).concat("\n")
}

/// A checkpoint on one line.
pub open spec fn checkpoint_row(checkpoint: CheckpointView) -> Seq<char> {
    dated_row(time::shown_instant(checkpoint.occurred_at), checkpoint.note)
}

/// The checkpoints of a session, one to a line.
pub open spec fn checkpoint_rows(checkpoints: Seq<CheckpointView>) -> Seq<char> {
    if checkpoints.len() == 0 {
        "  None\n"@
    } else {
        text::concatenated(Seq::new(checkpoints.len(), |i: int| checkpoint_row(checkpoints[i])))
    }
}

/// A snapshot of a plan, as the one with the number `number`.
pub open spec fn snapshot_rows_of(revision: PlanRevisionView, number: nat) -> Seq<char> {
    snapshot_rows_at(revision, number, time::shown_instant(revision.occurred_at))
}

/// A snapshot of a plan, as the one with the number `number`, with the text for its instant.
pub open spec fn snapshot_rows_at(revision: PlanRevisionView, number: nat, at: Seq<char>) -> Seq<
    char,
> {
    "  "@ + text::decimal(number) + ". "@ + at + "  "@ + (
    if revision.created {
        "created"@
    } else {
        "revised"@
    }) + " ("@ + text::decimal(revision.plan.len()) + " item(s))\n     source: "@
        + revision.source.text() + "\n"@
}

/// The snapshots of a session's plan, numbered from one.
pub open spec fn snapshot_rows(revisions: Seq<PlanRevisionView>) -> Seq<char> {
    if revisions.len() == 0 {
        "  None\n"@
    } else {
        text::concatenated(
            Seq::new(revisions.len(), |i: int| snapshot_rows_of(revisions[i], (i + 1) as nat)),
        )
    }
}

/// An event on one line.
pub open spec fn event_row(event: StoredEventView) -> Seq<char> {
    dated_row(
        time::shown_instant(event.occurred_at),
        event.event.name() + render::detail(event.event),
    )
}

/// Events, one to a line.
pub open spec fn event_rows(events: Seq<StoredEventView>) -> Seq<char> {
    text::concatenated(Seq::new(events.len(), |i: int| event_row(events[i])))
}

/// All there is to know of a session.
pub open spec fn session_history(p: ProjectionView, events: Seq<StoredEventView>) -> Seq<char> {
    render::session_text(p) + "\nCheckpoints:\n"@ + checkpoint_rows(p.checkpoints)
        + "\nLatest plan:\n"@ + render::plan_items(p.current_plan) + "\nPlan snapshots:\n"@
        + snapshot_rows(p.plan_revisions) + "\nEvent timeline:\n"@ + event_rows(
        commands::events_of(events, p.metadata.session_id),
    )
}

/// What the user reads of the session that the reference `reference` stands for.
pub open spec fn history_show_text(
    events: Seq<StoredEventView>,
    now: Instant,
    reference: Seq<char>,
) -> Result<Seq<char>, ErrorView> {
    match replay::reconstructed(events, now) {
        Err(e) => Err(e),
        Ok(sessions) => match found(sessions, reference) {
            Err(e) => Err(e),
            Ok(p) => Ok(session_history(p, events)),
        },
    }
}

/// The checkpoints of a session.
fn render_checkpoints(checkpoints: &Vec<Checkpoint>) -> (res: String)
    ensures
        res@ == checkpoint_rows(session::views(checkpoints@)),
{
    if checkpoints.len() == 0 {
        return "  None\n".to_owned();
    }
    let ghost all = session::views(checkpoints@);
    let mut rows: Vec<String> = Vec::new();
    let mut i: usize = 0;
    while i < checkpoints.len()
        invariant
            i <= checkpoints.len(),
            all == session::views(checkpoints@),
            rows.len() == i,
            forall|j: int| 0 <= j < i ==> (#[trigger] rows@[j])@ == checkpoint_row(all[j]),
        decreases checkpoints.len() - i,
    {
        rows.push(
            describe_dated(
                time::format_timestamp(checkpoints[i].occurred_at).as_str(),
                checkpoints[i].note.as_str(),
            ),
        );
        i = i + 1;
    }
    assert(text::texts(rows@) =~= Seq::new(all.len(), |i: int| checkpoint_row(all[i])));
    text::concatenate(rows.as_slice())
}

/// A snapshot of a plan, as the one with the number `number`, with the text for its instant.
pub fn describe_snapshot(revision: &PlanRevision, number: u128, at: &str) -> (res: String)
    ensures
        res@ == snapshot_rows_at(revision@, number as nat, at@),
{
    let kind = if revision.created {
        "created"
    } else {
        "revised"
    };
    "  ".to_owned().concat(text::decimal_text(number).as_str()).concat(". ").concat(
        at,
    ).concat("  ").concat(kind).concat(" (").concat(
        text::decimal_text(revision.plan.items.len() as u128).as_str(),
    ).concat(" item(s))\n     source: ").concat(revision.source.text().as_str()).concat("\n")
}

/// The snapshots of a session's plan.
fn render_snapshots(revisions: &Vec<PlanRevision>) -> (res: String)
    ensures
        res@ == snapshot_rows(session::views(revisions@)),
{
    if revisions.len() == 0 {
        return "  None\n".to_owned();
    }
    let ghost all = session::views(revisions@);
    let mut rows: Vec<String> = Vec::new();
    let mut i: usize = 0;
    while i < revisions.len()
        invariant
            i <= revisions.len(),
            all == session::views(revisions@),
            rows.len() == i,
            forall|j: int|
                0 <= j < i ==> (#[trigger] rows@[j])@ == snapshot_rows_of(all[j], (j + 1) as nat),
        decreases revisions.len() - i,
    {
        rows.push(
            describe_snapshot(
                &revisions[i],
                i as u128 + 1,
                time::format_timestamp(revisions[i].occurred_at).as_str(),
            ),
        );
        i = i + 1;
    }
    assert(text::texts(rows@) =~= Seq::new(
        all.len(),
        |i: int| snapshot_rows_of(all[i], (i + 1) as nat),
    ));
    text::concatenate(rows.as_slice())
}

/// Events, one to a line.
fn render_events(events: &Vec<StoredEvent>) -> (res: String)
    ensures
        res@ == event_rows(session::views(events@)),
{
    let ghost all = session::views(events@);
    let mut rows: Vec<String> = Vec::new();
    let mut i: usize = 0;
    while i < events.len()
        invariant
            i <= events.len(),
            all == session::views(events@),
            rows.len() == i,
            forall|j: int| 0 <= j < i ==> (#[trigger] rows@[j])@ == event_row(all[j]),
        decreases events.len() - i,
    {
        let event = &events[i];
        let what = event.event.name().to_owned().concat(
            render::event_detail(&event.event).as_str(),
        );
        rows.push(
            describe_dated(time::format_timestamp(event.occurred_at).as_str(), what.as_str()),
        );
        i = i + 1;
    }
    assert(text::texts(rows@) =~= Seq::new(all.len(), |i: int| event_row(all[i])));
    text::concatenate(rows.as_slice())
}

/// Shows all there is to know of the session that the user refers to.
pub fn history_show(events: &[StoredEvent], now: Timestamp, reference: &str) -> (res: Result<
    String,
    LokinError,
>)
    ensures
        error::result_view(res) == history_show_text(session::views(events@), now@, reference@),
{
    let projections = replay::reconstruct_all(events, now)?;
    let projection = find_projection(projections.as_slice(), reference)?;
    proof {
        lemma_deadlines(session::views(events@), now@);
        let i = choose|i: int| 0 <= i < projections@.len() && *projection == projections@[i];
        assert(session::views(projections@)[i] == projection@);
    }
    let own = commands::events_for_session(events, projection.metadata.session_id);
    let mut res = render::render_projection(projection);
    res.append("\nCheckpoints:\n");
    res.append(render_checkpoints(&projection.checkpoints).as_str());
    res.append("\nLatest plan:\n");
    let plan = match &projection.current_plan {
        Some(plan) => Some(plan),
        None => None,
    };
    res.append(render::render_plan_items(plan).as_str());
    res.append("\nPlan snapshots:\n");
    res.append(render_snapshots(&projection.plan_revisions).as_str());
    res.append("\nEvent timeline:\n");
    res.append(render_events(&own).as_str());
    Ok(res)
}

/// Which sessions are listed: without a search all of them; with one, those whose goal holds what
/// was searched for or whose name begins with it, in upper or lower case and without white space
/// around it. Neither their states nor the time matter.
pub proof fn the_list_has_every_session_that_answers(
    events: Seq<StoredEventView>,
    now: Instant,
    search: Seq<char>,
)
    requires
        replay::first_fault(events) is None,
    ensures
        history_text(events, now, None) == Ok::<_, ErrorView>(
            history_of(replay::projections(events, now)),
        ),
        history_text(events, now, Some(search)) == Ok::<_, ErrorView>(
            history_of(
                replay::projections(events, now).filter(
                    |p: ProjectionView|
                        {
                            ||| text::has_infix(
                                text::lowered(p.metadata.goal),
                                text::lowered(text::trimmed(search)),
                            )
                            ||| text::has_prefix(
                                session::hyphenated(p.metadata.session_id.value),
                                text::lowered(text::trimmed(search)),
                            )
                        },
                ),
            ),
        ),
{
    let all = replay::projections(events, now);
    let any = |p: ProjectionView| listed(p, query_of(None));
    lemma_filter_all(all, any);
    let wanted = |p: ProjectionView| listed(p, query_of(Some(search)));
    let stated = |p: ProjectionView|
        {
            ||| text::has_infix(
                text::lowered(p.metadata.goal),
                text::lowered(text::trimmed(search)),
            )
            ||| text::has_prefix(
                session::hyphenated(p.metadata.session_id.value),
                text::lowered(text::trimmed(search)),
            )
        };
    assert(wanted =~= stated);
}

/// A filter that everything passes leaves everything.
proof fn lemma_filter_all(all: Seq<ProjectionView>, pass: spec_fn(ProjectionView) -> bool)
    requires
        forall|p: ProjectionView| #[trigger] pass(p),
    ensures
        all.filter(pass) == all,
    decreases all.len(),
{
    reveal(Seq::filter);
    if all.len() > 0 {
        lemma_filter_all(all.drop_last(), pass);
        assert(pass(all.last()));
        assert(all.filter(pass) =~= all);
    } else {
        assert(all.filter(pass) =~= all);
    }
}

/// The list has a row for each of its sessions and says how many there are; a session that comes
/// later stands above those that came before it. The row tells when the session started, its name,
/// its state, its budget, how long it was at work and in pauses, and its goal.
pub proof fn the_list_has_a_row_for_each_session(
    matching: Seq<ProjectionView>,
    p: ProjectionView,
)
    ensures
        history_of(Seq::empty()) == "No sessions found.\n"@,
        ({
            let head = |n: nat| "Lokin history ("@ + text::decimal(n) + " session(s)):\n"@;
            let row = time::shown_instant(p.metadata.start_time) + "  "@ + session::hyphenated(
                p.metadata.session_id.value,
            ) + "  "@ + text::padded_end(p.effective_state.spec_name(), 9) + "  budget "@
                + text::padded_start(text::decimal(p.metadata.duration_minutes as nat) + "m"@, 5)
                + "  active "@ + text::padded_start(time::shown_span(p.active_work_duration), 8)
                + "  paused "@ + text::padded_start(time::shown_span(p.paused_duration), 8)
                + "  "@ + p.metadata.goal + "\n"@;
            history_of(matching.push(p)) == head(matching.len() + 1) + (row + if matching.len()
                == 0 {
                Seq::empty()
            } else {
                history_of(matching).skip(head(matching.len()).len() as int)
            })
        }),
{
    let head = |n: nat| "Lokin history ("@ + text::decimal(n) + " session(s)):\n"@;
    let longer = matching.push(p);
    let n = matching.len();
    let rows = Seq::new(n, |i: int| history_row(matching[n - 1 - i]));
    let all = Seq::new(longer.len(), |i: int| history_row(longer[longer.len() - 1 - i]));
    let row = history_row(p);
    assert(all =~= seq![row] + rows);
    text::concatenating_drops_nothing(seq![row], rows);
    assert(text::concatenated(seq![row]) == row);
    if n > 0 {
        assert(history_of(matching).skip(head(n).len() as int) =~= text::concatenated(rows));
    } else {
        assert(text::concatenated(rows) =~= Seq::empty());
    }
    assert(history_of(longer) =~= head(n + 1) + (row + text::concatenated(rows)));
}

/// Whom a reference finds: the one session whose name begins with it, in upper or lower case and
/// without white space around it. If there is none, the reference is unknown, and if there are two,
/// it is ambiguous; the user is told so in the words of the reference.
pub proof fn whom_a_reference_finds(
    sessions: Seq<ProjectionView>,
    reference: Seq<char>,
    a: int,
    b: int,
)
    requires
        0 <= a < sessions.len(),
        0 <= b < sessions.len(),
    ensures
        ({
            let meant = |p: ProjectionView|
                text::has_prefix(
                    session::hyphenated(p.metadata.session_id.value),
                    text::lowered(text::trimmed(reference)),
                );
            &&& meant(sessions[a]) && (forall|i: int|
                0 <= i < sessions.len() && i != a ==> !meant(#[trigger] sessions[i])) ==> found(
                sessions,
                reference,
            ) == Ok::<_, ErrorView>(sessions[a])
            &&& (forall|i: int| 0 <= i < sessions.len() ==> !meant(#[trigger] sessions[i]))
                ==> found(sessions, reference) == Err::<ProjectionView, _>(
                ErrorView::UnknownSession(reference),
            )
            &&& a != b && meant(sessions[a]) && meant(sessions[b]) ==> found(sessions, reference)
                == Err::<ProjectionView, _>(
                ErrorView::InvalidInput(
                    "Session reference '"@ + reference + "' is ambiguous. Use more of the ID."@,
                ),
            )
        }),
        found(Seq::empty(), reference) == Err::<ProjectionView, _>(
            ErrorView::UnknownSession(reference),
        ),
{
    let prefix = text::lowered(text::trimmed(reference));
    let meant = |p: ProjectionView|
        text::has_prefix(session::hyphenated(p.metadata.session_id.value), prefix);
    let stated = |p: ProjectionView|
        text::has_prefix(
            session::hyphenated(p.metadata.session_id.value),
            text::lowered(text::trimmed(reference)),
        );
    assert(meant =~= stated);
    assert(named(Seq::empty(), prefix).len() == 0) by {
        reveal(Seq::filter);
    }
    crate::laws::lemma_filter_none(sessions, meant);
    crate::laws::lemma_filter_one(sessions, meant);
    if meant(sessions[a]) && forall|i: int|
        0 <= i < sessions.len() && i != a ==> !meant(#[trigger] sessions[i]) {
        assert(crate::laws::sole(sessions, meant, a));
    }
    if a != b && meant(sessions[a]) && meant(sessions[b]) {
        assert(forall|k: int| !#[trigger] crate::laws::sole(sessions, meant, k));
    }
}

/// The status is that of the session that started last, whatever happened to the others: if it was
/// stopped, or if there is none, the user is told so; else it is shown.
pub proof fn the_status_is_of_the_last_session(events: Seq<StoredEventView>, now: Instant)
    requires
        replay::first_fault(events) is None,
    ensures
        ({
            let sessions = replay::projections(events, now);
            &&& sessions.len() == 0 ==> status_text(events, now) == Ok::<_, ErrorView>(
                "No Lokin sessions yet. Start one with `lokin start <goal>`.\n"@,
            )
            &&& sessions.len() > 0 && sessions.last().effective_state == EffectiveState::Stopped
                ==> status_text(events, now) == Ok::<_, ErrorView>(
                "No active Lokin session. Use `lokin history` to inspect past sessions.\n"@,
            )
            &&& sessions.len() > 0 && sessions.last().effective_state != EffectiveState::Stopped
                ==> status_text(events, now) == Ok::<_, ErrorView>(
                render::session_text(sessions.last()),
            )
            &&& plan_show_text(events, now) == match commands::current(events, now) {
                Ok(p) => Ok(render::plan_text(p)),
                Err(e) => Err(e),
            }
        }),
{
}

/// All that is told of a session: how it is, every note, its plan, every snapshot of it, and every
/// one of its events.
pub proof fn a_history_tells_everything(p: ProjectionView, events: Seq<StoredEventView>)
    ensures
        session_history(p, events) == render::session_text(p) + "\nCheckpoints:\n"@
            + checkpoint_rows(p.checkpoints) + "\nLatest plan:\n"@ + render::plan_items(
            p.current_plan,
        ) + "\nPlan snapshots:\n"@ + snapshot_rows(p.plan_revisions) + "\nEvent timeline:\n"@
            + event_rows(replay::story(events, p.metadata.session_id)),
{
}

/// Every note, every snapshot and every event has its own line or lines, in its place and with its
/// instant.
pub proof fn nothing_is_left_out_of_a_history(
    checkpoints: Seq<CheckpointView>,
    checkpoint: CheckpointView,
    revisions: Seq<PlanRevisionView>,
    revision: PlanRevisionView,
    events: Seq<StoredEventView>,
    event: StoredEventView,
)
    ensures
        checkpoint_rows(Seq::empty()) == "  None\n"@,
        checkpoint_rows(checkpoints.push(checkpoint)) == (if checkpoints.len() == 0 {
            Seq::empty()
        } else {
            checkpoint_rows(checkpoints)
        }) + ("  "@ + time::shown_instant(checkpoint.occurred_at) + "  "@ + checkpoint.note
            + "\n"@),
        snapshot_rows(Seq::empty()) == "  None\n"@,
        snapshot_rows(revisions.push(revision)) == (if revisions.len() == 0 {
            Seq::empty()
        } else {
            snapshot_rows(revisions)
        }) + ("  "@ + text::decimal((revisions.len() + 1) as nat) + ". "@ + time::shown_instant(
            revision.occurred_at,
        ) + "  "@ + (if revision.created {
            "created"@
        } else {
            "revised"@
        }) + " ("@ + text::decimal(revision.plan.len()) + " item(s))\n     source: "@
            + revision.source.text() + "\n"@),
        event_rows(Seq::empty()) == Seq::<char>::empty(),
        event_rows(events.push(event)) == event_rows(events) + ("  "@ + time::shown_instant(
            event.occurred_at,
        ) + "  "@ + (event.event.name() + render::detail(event.event)) + "\n"@),
{
    let notes = Seq::new(checkpoints.len(), |i: int| checkpoint_row(checkpoints[i]));
    let more_notes = checkpoints.push(checkpoint);
    let all_notes = Seq::new(more_notes.len(), |i: int| checkpoint_row(more_notes[i]));
    assert(all_notes.drop_last() =~= notes);
    let plans = Seq::new(revisions.len(), |i: int| snapshot_rows_of(revisions[i], (i + 1) as nat));
    let more_plans = revisions.push(revision);
    let all_plans = Seq::new(
        more_plans.len(),
        |i: int| snapshot_rows_of(more_plans[i], (i + 1) as nat),
    );
    assert(all_plans.drop_last() =~= plans);
    let lines = Seq::new(events.len(), |i: int| event_row(events[i]));
    let more_events = events.push(event);
    let all_lines = Seq::new(more_events.len(), |i: int| event_row(more_events[i]));
    assert(all_lines.drop_last() =~= lines);
    if checkpoints.len() == 0 {
        assert(text::concatenated(notes) =~= Seq::empty());
    }
    if revisions.len() == 0 {
        assert(text::concatenated(plans) =~= Seq::empty());
    }
    let none = Seq::<StoredEventView>::empty();
    assert(Seq::new(none.len(), |i: int| event_row(none[i])) =~= Seq::empty());
}

/// What is told when one session is asked for: everything about the one that the reference finds,
/// or what is wrong with the reference.
pub proof fn the_session_asked_for_is_told_of(
    events: Seq<StoredEventView>,
    now: Instant,
    reference: Seq<char>,
)
    requires
        replay::first_fault(events) is None,
    ensures
        history_show_text(events, now, reference) == match found(
            replay::projections(events, now),
            reference,
        ) {
            Ok(p) => Ok(session_history(p, events)),
            Err(e) => Err(e),
        },
{
}

} // verus!
