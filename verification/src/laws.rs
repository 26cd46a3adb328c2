//! What holds of the commands and of the log as a whole.

use vstd::prelude::*;

use crate::commands;
use crate::commands::CommandView;
use crate::error::ErrorView;
use crate::history;
use crate::llm;
use crate::llm::{InferenceStepView, PlanInferenceView, ReplyView};
use crate::replay;
use crate::replay::StateView;
use crate::session;
use crate::session::{
    EffectiveState, PlanItemStatus, PlanItemView, PlanRevisionView, PlanSourceView,
    ProjectionView, SessionId, StoredEventView,
};
use crate::text;
use crate::time;
use crate::time::Instant;

verus! {

/// A filter leaves nothing exactly if nothing passes it.
pub proof fn lemma_filter_none<A>(s: Seq<A>, pass: spec_fn(A) -> bool)
    ensures
        s.filter(pass).len() == 0 <==> forall|i: int| 0 <= i < s.len() ==> !pass(#[trigger] s[i]),
    decreases s.len(),
{
    reveal(Seq::filter);
    if s.len() > 0 {
        let t = s.drop_last();
        lemma_filter_none(t, pass);
        if forall|i: int| 0 <= i < t.len() ==> !pass(#[trigger] t[i]) {
            if !pass(s.last()) {
                assert forall|i: int| 0 <= i < s.len() implies !pass(#[trigger] s[i]) by {
                    if i < t.len() {
                        assert(s[i] == t[i]);
                    }
                }
            } else {
                assert(pass(s[s.len() - 1]));
            }
        } else {
            let i = choose|i: int| 0 <= i < t.len() && pass(#[trigger] t[i]);
            assert(pass(s[i]));
        }
    }
}

/// Exactly the element at `k` passes the filter.
pub open spec fn sole<A>(s: Seq<A>, pass: spec_fn(A) -> bool, k: int) -> bool {
    &&& 0 <= k < s.len()
    &&& pass(s[k])
    &&& forall|i: int| 0 <= i < s.len() && i != k ==> !pass(#[trigger] s[i])
}

/// A filter leaves one element exactly if one element passes it.
pub proof fn lemma_filter_one<A>(s: Seq<A>, pass: spec_fn(A) -> bool)
    ensures
        s.filter(pass).len() == 1 <==> exists|k: int| sole(s, pass, k),
        forall|k: int| #[trigger] sole(s, pass, k) ==> s.filter(pass) == seq![s[k]],
    decreases s.len(),
{
    reveal(Seq::filter);
    if s.len() > 0 {
        let t = s.drop_last();
        let n = s.len() - 1;
        lemma_filter_one(t, pass);
        lemma_filter_none(t, pass);
        assert forall|k: int| #[trigger] sole(s, pass, k) implies s.filter(pass) == seq![s[k]] by {
            if k == n {
                assert forall|i: int| 0 <= i < t.len() implies !pass(#[trigger] t[i]) by {
                    assert(t[i] == s[i]);
                }
                assert(s.filter(pass) =~= seq![s[k]]);
            } else {
                assert(t[k] == s[k]);
                assert forall|i: int| 0 <= i < t.len() && i != k implies !pass(#[trigger] t[i]) by {
                    assert(t[i] == s[i]);
                }
                assert(sole(t, pass, k));
                assert(!pass(s[n]));
            }
        }
        if s.filter(pass).len() == 1 {
            if pass(s.last()) {
                assert(t.filter(pass).len() == 0);
                assert forall|i: int| 0 <= i < s.len() && i != n implies !pass(#[trigger] s[i]) by {
                    assert(t[i] == s[i]);
                }
                assert(sole(s, pass, n));
            } else {
                assert(t.filter(pass).len() == 1);
                let k = choose|k: int| sole(t, pass, k);
                assert(t[k] == s[k]);
                assert forall|i: int| 0 <= i < s.len() && i != k implies !pass(#[trigger] s[i]) by {
                    if i < n {
                        assert(t[i] == s[i]);
                    }
                }
                assert(sole(s, pass, k));
            }
        }
    }
}

/// The session `id` of the log still runs or waits at the instant `now`.
pub open spec fn is_active(events: Seq<StoredEventView>, id: SessionId, now: Instant) -> bool {
    match replay::replay(events, id) {
        None => false,
        Some(s) => replay::projected(s, now).effective_state.active(),
    }
}

/// At most one session of the log is active at the instant `now`.
pub open spec fn at_most_one_active(events: Seq<StoredEventView>, now: Instant) -> bool {
    forall|a: SessionId, b: SessionId|
        #![trigger is_active(events, a, now), is_active(events, b, now)]
        is_active(events, a, now) && is_active(events, b, now) ==> a == b
}

/// The log has no fault.
pub open spec fn readable(events: Seq<StoredEventView>) -> bool {
    replay::first_fault(events) is None
}

/// The list of sessions of a readable log, read by their names.
proof fn lemma_projections(events: Seq<StoredEventView>, now: Instant)
    requires
        readable(events),
    ensures
        forall|k: int|
            #![trigger replay::projections(events, now)[k]]
            0 <= k < replay::sessions(events).len() ==> {
                let id = replay::sessions(events)[k];
                let p = replay::projections(events, now)[k];
                &&& replay::replay(events, id) is Some
                &&& p == replay::projected(replay::replay(events, id)->0, now)
                &&& p.metadata.session_id == id
                &&& p.effective_state.active() == is_active(events, id, now)
            },
{
    replay::lemma_sessions(events);
    assert forall|k: int| 0 <= k < replay::sessions(events).len() implies replay::replay(
        events,
        #[trigger] replay::sessions(events)[k],
    ) is Some by {
        assert(replay::sessions(events).contains(replay::sessions(events)[k]));
    }
}

/// The active session is the only one, and it is what its events add up to.
pub proof fn lemma_current(events: Seq<StoredEventView>, now: Instant)
    ensures
        commands::current(events, now) matches Ok(p) ==> {
            let id = p.metadata.session_id;
            &&& readable(events)
            &&& replay::replay(events, id) matches Some(s) && p == replay::projected(s, now)
            &&& is_active(events, id, now)
            &&& forall|other: SessionId| #[trigger] is_active(events, other, now) ==> other == id
        },
        commands::may_start(events, now) is Ok <==> readable(events) && forall|other: SessionId|
            !#[trigger] is_active(events, other, now),
{
    if readable(events) {
        lemma_projections(events, now);
        replay::lemma_sessions(events);
        let all = replay::projections(events, now);
        let ids = replay::sessions(events);
        let active = |p: ProjectionView| p.effective_state.active();
        lemma_filter_one(all, active);
        lemma_filter_none(all, active);
        assert forall|other: SessionId| #[trigger] is_active(events, other, now) implies exists|
            k: int,
        | 0 <= k < ids.len() && ids[k] == other && active(#[trigger] all[k]) by {
            assert(ids.contains(other));
            let k = choose|k: int| 0 <= k < ids.len() && ids[k] == other;
            assert(active(all[k]));
        }
        assert forall|k: int| 0 <= k < all.len() && active(#[trigger] all[k]) implies is_active(
            events,
            ids[k],
            now,
        ) by {}
        if commands::current(events, now) is Ok {
            let k = choose|k: int| sole(all, active, k);
            assert(all.filter(active) == seq![all[k]]);
        }
    }
}

/// What one more event does to a log.
proof fn lemma_push(events: Seq<StoredEventView>, e: StoredEventView)
    ensures
        forall|id: SessionId| #[trigger]
            replay::replay(events.push(e), id) == if id == e.session_id {
                Some(replay::after(replay::replay(events, id), e))
            } else {
                replay::replay(events, id)
            },
        readable(events) ==> (readable(events.push(e)) <==> replay::fault(
            replay::replay(events, e.session_id),
            e,
        ) is None),
        readable(events.push(e)) ==> readable(events),
{
    assert(events.push(e).drop_last() =~= events);
}

/// The beginning of a log that can be read can be read.
pub proof fn readable_so_far(events: Seq<StoredEventView>, more: Seq<StoredEventView>)
    requires
        readable(events + more),
    ensures
        readable(events),
    decreases more.len(),
{
    if more.len() > 0 {
        assert((events + more).drop_last() =~= events + more.drop_last());
        readable_so_far(events, more.drop_last());
    } else {
        assert(events + more =~= events);
    }
}

/// What is settled when a session starts never changes, whatever the log records afterwards: its
/// goal, its budget, its start, and with them its deadline. In particular a pause does not move the
/// deadline.
pub proof fn the_deadline_never_moves(
    events: Seq<StoredEventView>,
    more: Seq<StoredEventView>,
    id: SessionId,
)
    requires
        readable(events + more),
        replay::replay(events, id) is Some,
    ensures
        replay::replay(events + more, id) is Some,
        replay::replay(events + more, id)->0.metadata == replay::replay(events, id)->0.metadata,
        replay::replay(events + more, id)->0.metadata.deadline() == replay::replay(
            events,
            id,
        )->0.metadata.deadline(),
    decreases more.len(),
{
    if more.len() > 0 {
        let before = events + more.drop_last();
        assert((events + more).drop_last() =~= before);
        the_deadline_never_moves(events, more.drop_last(), id);
    } else {
        assert(events + more =~= events);
    }
}

/// A session that was stopped stays stopped, at the same instant, whatever the log records
/// afterwards and whatever time it is.
pub proof fn stopped_is_for_good(
    events: Seq<StoredEventView>,
    more: Seq<StoredEventView>,
    id: SessionId,
    now: Instant,
)
    requires
        readable(events + more),
        replay::replay(events, id) matches Some(s) && s.stopped_at is Some,
    ensures
        replay::replay(events + more, id) == replay::replay(events, id),
        !is_active(events + more, id, now),
    decreases more.len(),
{
    if more.len() > 0 {
        let before = events + more.drop_last();
        assert((events + more).drop_last() =~= before);
        stopped_is_for_good(events, more.drop_last(), id, now);
    } else {
        assert(events + more =~= events);
    }
}

/// The story of a session is never overwritten: its checkpoints and the snapshots of its plan stay
/// where they are, and new ones come behind them.
pub proof fn history_is_preserved(
    events: Seq<StoredEventView>,
    more: Seq<StoredEventView>,
    id: SessionId,
)
    requires
        readable(events + more),
        replay::replay(events, id) is Some,
    ensures
        replay::replay(events, id)->0.checkpoints.is_prefix_of(
            replay::replay(events + more, id)->0.checkpoints,
        ),
        replay::replay(events, id)->0.plan_revisions.is_prefix_of(
            replay::replay(events + more, id)->0.plan_revisions,
        ),
        replay::sessions(events).is_prefix_of(replay::sessions(events + more)),
    decreases more.len(),
{
    if more.len() > 0 {
        let before = events + more.drop_last();
        assert((events + more).drop_last() =~= before);
        the_deadline_never_moves(events, more.drop_last(), id);
        history_is_preserved(events, more.drop_last(), id);
    } else {
        assert(events + more =~= events);
    }
}

/// A session that is over does not become active again by the passing of time.
pub proof fn time_only_ends_sessions(
    events: Seq<StoredEventView>,
    id: SessionId,
    now: Instant,
    later: Instant,
)
    requires
        now.nanos <= later.nanos,
        is_active(events, id, later),
    ensures
        is_active(events, id, now),
{
}

/// The budget of a session is hard: at every instant, the time that has gone by and the time that
/// is left add up to it, pauses and all, and the time that has gone by is the time at work and the
/// time in pauses. None of them is negative.
pub proof fn the_budget_adds_up(events: Seq<StoredEventView>, now: Instant, k: int)
    requires
        readable(events),
        0 <= k < replay::projections(events, now).len(),
    ensures
        ({
            let p = replay::projections(events, now)[k];
            &&& p.wall_clock_elapsed + p.remaining_wall_clock == p.metadata.budget()
            &&& p.active_work_duration + p.paused_duration == p.wall_clock_elapsed
            &&& 0 <= p.wall_clock_elapsed
            &&& 0 <= p.remaining_wall_clock
            &&& 0 <= p.active_work_duration
            &&& 0 <= p.paused_duration
            &&& p.current_pause_duration matches Some(pause) ==> 0 <= pause <= p.paused_duration
            &&& p.effective_state == EffectiveState::Completed ==> p.remaining_wall_clock == 0
            &&& time::in_calendar(p.metadata.deadline())
        }),
{
    lemma_projections(events, now);
    replay::lemma_sessions(events);
}

/// As time passes, what has elapsed of a session never shrinks and what is left of it never grows.
pub proof fn time_runs_forward(s: StateView, now: Instant, later: Instant)
    requires
        s.consistent(),
        now.nanos <= later.nanos,
    ensures
        replay::projected(s, now).wall_clock_elapsed <= replay::projected(
            s,
            later,
        ).wall_clock_elapsed,
        replay::projected(s, now).remaining_wall_clock >= replay::projected(
            s,
            later,
        ).remaining_wall_clock,
        replay::projected(s, now).active_work_duration <= replay::projected(
            s,
            later,
        ).active_work_duration,
        replay::projected(s, now).paused_duration <= replay::projected(s, later).paused_duration,
{
}

/// A session that the command starts gets a name that is not taken yet, and a deadline within the
/// calendar.
pub open spec fn fresh_start(
    events: Seq<StoredEventView>,
    id: SessionId,
    now: Instant,
    command: CommandView,
) -> bool {
    let fits = |duration_minutes: u16| time::in_calendar(now.nanos + duration_minutes * time::MINUTE);
    match command {
        CommandView::Start { goal, duration_minutes } => replay::replay(events, id) is None && fits(
            duration_minutes,
        ),
        CommandView::StartWithPlan { goal, duration_minutes, plan, model } => replay::replay(
            events,
            id,
        ) is None && fits(duration_minutes),
        _ => true,
    }
}

/// The log after a command that was carried out.
pub open spec fn log_after(
    events: Seq<StoredEventView>,
    id: SessionId,
    now: Instant,
    command: CommandView,
) -> Seq<StoredEventView> {
    events + commands::decided(events, id, now, command)->Ok_0.appended
}

/// What a command records: one event or two, all of them of the session that it is about, at the
/// instant at which it takes effect, and of the present schema.
pub proof fn what_a_command_records(
    events: Seq<StoredEventView>,
    id: SessionId,
    now: Instant,
    command: CommandView,
)
    requires
        commands::decided(events, id, now, command) is Ok,
    ensures
        ({
            let outcome = commands::decided(events, id, now, command)->Ok_0;
            &&& outcome.occurred_at == now
            &&& 1 <= outcome.appended.len() <= 2
            &&& forall|i: int|
                0 <= i < outcome.appended.len() ==> {
                    let e = #[trigger] outcome.appended[i];
                    &&& e.session_id == outcome.session_id
                    &&& e.occurred_at == now
                    &&& e.schema_version == session::SCHEMA_VERSION
                }
        }),
{
}

/// What one event or two of the same session do to a log.
proof fn lemma_extended(
    events: Seq<StoredEventView>,
    appended: Seq<StoredEventView>,
    own: SessionId,
)
    requires
        readable(events),
        1 <= appended.len() <= 2,
        forall|i: int| 0 <= i < appended.len() ==> (#[trigger] appended[i]).session_id == own,
    ensures
        ({
            let before = replay::replay(events, own);
            let first = Some(replay::after(before, appended[0]));
            let log = events + appended;
            &&& forall|other: SessionId|
                other != own ==> #[trigger] replay::replay(log, other) == replay::replay(
                    events,
                    other,
                )
            &&& replay::replay(log, own) == if appended.len() == 1 {
                first
            } else {
                Some(replay::after(first, appended[1]))
            }
            &&& replay::fault(before, appended[0]) is None && (appended.len() == 2
                ==> replay::fault(first, appended[1]) is None) ==> readable(log)
        }),
{
    let first = events.push(appended[0]);
    lemma_push(events, appended[0]);
    if appended.len() == 1 {
        assert(events + appended =~= first);
    } else {
        lemma_push(first, appended[1]);
        assert(events + appended =~= first.push(appended[1]));
    }
}

/// After a command that was carried out, the log is readable, the other sessions are as they were,
/// and the command was about the session that it started or the one that was active.
proof fn lemma_appended(
    events: Seq<StoredEventView>,
    id: SessionId,
    now: Instant,
    command: CommandView,
)
    requires
        commands::decided(events, id, now, command) is Ok,
        fresh_start(events, id, now, command),
    ensures
        readable(events),
        readable(log_after(events, id, now, command)),
        ({
            let outcome = commands::decided(events, id, now, command)->Ok_0;
            let log = log_after(events, id, now, command);
            &&& forall|other: SessionId|
                other != outcome.session_id ==> #[trigger] replay::replay(log, other)
                    == replay::replay(events, other)
            &&& command.starts() ==> outcome.session_id == id && forall|other: SessionId|
                !#[trigger] is_active(events, other, now)
            &&& !command.starts() ==> commands::current(events, now) is Ok && outcome.session_id
                == commands::current(events, now)->Ok_0.metadata.session_id
        }),
{
    lemma_current(events, now);
    what_a_command_records(events, id, now, command);
    let outcome = commands::decided(events, id, now, command)->Ok_0;
    let own = outcome.session_id;
    assert(readable(events));
    lemma_extended(events, outcome.appended, own);
    let before = replay::replay(events, own);
    let first = Some(replay::after(before, outcome.appended[0]));
    match command {
        CommandView::Start { .. } => {
            assert(replay::fault(before, outcome.appended[0]) is None);
        },
        CommandView::StartWithPlan { .. } => {
            assert(replay::fault(before, outcome.appended[0]) is None);
            assert(replay::fault(first, outcome.appended[1]) is None);
        },
        CommandView::Pause { note } => {
            assert(replay::fault(before, outcome.appended[0]) is None);
            if note is Some {
                assert(replay::fault(first, outcome.appended[1]) is None);
            }
        },
        CommandView::PlanAdd { .. } => {
            assert(replay::fault(before, outcome.appended[0]) is None);
        },
        CommandView::PlanUpdate { .. } => {
            assert(replay::fault(before, outcome.appended[0]) is None);
        },
        CommandView::PlanRemove { .. } => {
            assert(replay::fault(before, outcome.appended[0]) is None);
        },
        CommandView::PlanRevise { .. } => {
            assert(replay::fault(before, outcome.appended[0]) is None);
        },
        _ => {
            assert(replay::fault(before, outcome.appended[0]) is None);
        },
    }
}

/// A command that is carried out leaves a log that can be read: whatever the commands record, they
/// can also read. (A start has to be under a fresh name, and its deadline within the calendar.)
pub proof fn commands_keep_the_log_readable(
    events: Seq<StoredEventView>,
    id: SessionId,
    now: Instant,
    command: CommandView,
)
    requires
        commands::decided(events, id, now, command) is Ok,
        fresh_start(events, id, now, command),
    ensures
        readable(events),
        readable(log_after(events, id, now, command)),
{
    lemma_appended(events, id, now, command);
}

/// One lock-in at a time: after a command was carried out, at most one session is active, then and
/// at every later instant.
pub proof fn one_session_at_a_time(
    events: Seq<StoredEventView>,
    id: SessionId,
    now: Instant,
    command: CommandView,
    later: Instant,
)
    requires
        commands::decided(events, id, now, command) is Ok,
        fresh_start(events, id, now, command),
        now.nanos <= later.nanos,
    ensures
        at_most_one_active(log_after(events, id, now, command), later),
{
    lemma_appended(events, id, now, command);
    lemma_current(events, now);
    let log = log_after(events, id, now, command);
    let own = commands::decided(events, id, now, command)->Ok_0.session_id;
    assert forall|a: SessionId| #[trigger] is_active(log, a, later) implies a == own by {
        if a != own {
            assert(replay::replay(log, a) == replay::replay(events, a));
            time_only_ends_sessions(events, a, now, later);
            assert(is_active(events, a, now));
        }
    }
}

/// A command touches one session only: the others stay exactly as they were.
pub proof fn commands_touch_one_session(
    events: Seq<StoredEventView>,
    id: SessionId,
    now: Instant,
    command: CommandView,
    other: SessionId,
)
    requires
        commands::decided(events, id, now, command) is Ok,
        fresh_start(events, id, now, command),
        other != commands::decided(events, id, now, command)->Ok_0.session_id,
    ensures
        replay::replay(log_after(events, id, now, command), other) == replay::replay(events, other),
{
    lemma_appended(events, id, now, command);
}

/// A session starts running, with its whole budget ahead of it, as the last of the log's sessions;
/// and as long as nothing else is recorded, no other can start before its deadline.
pub proof fn a_started_session_runs(
    events: Seq<StoredEventView>,
    id: SessionId,
    now: Instant,
    command: CommandView,
)
    requires
        command.starts(),
        commands::decided(events, id, now, command) is Ok,
        fresh_start(events, id, now, command),
    ensures
        ({
            let log = log_after(events, id, now, command);
            let goal = match command {
                CommandView::Start { goal, duration_minutes } => text::trimmed(goal),
                _ => command->StartWithPlan_goal,
            };
            let minutes = match command {
                CommandView::Start { goal, duration_minutes } => duration_minutes,
                _ => command->StartWithPlan_duration_minutes,
            };
            &&& replay::sessions(log) == replay::sessions(events).push(id)
            &&& replay::replay(log, id) matches Some(s) && {
                let p = replay::projected(s, now);
                &&& p.metadata.goal == goal
                &&& p.metadata.start_time == now
                &&& p.metadata.duration_minutes == minutes
                &&& p.remaining_wall_clock == p.metadata.budget()
                &&& p.wall_clock_elapsed == 0
                &&& minutes > 0 ==> p.effective_state == EffectiveState::Running
            }
            &&& forall|next: SessionId, later: Instant, second: CommandView|
                now.nanos <= later.nanos < now.nanos + minutes * time::MINUTE && second.starts() ==> (
                #[trigger] commands::decided(log, next, later, second)) is Err
        }),
{
    lemma_appended(events, id, now, command);
    replay::lemma_sessions(events);
    let log = log_after(events, id, now, command);
    let appended = commands::decided(events, id, now, command)->Ok_0.appended;
    let first = events.push(appended[0]);
    lemma_push(events, appended[0]);
    assert(first.drop_last() =~= events);
    assert(!replay::sessions(events).contains(id));
    if appended.len() == 1 {
        assert(log =~= first);
    } else {
        lemma_push(first, appended[1]);
        assert(log =~= first.push(appended[1]));
        assert(log.drop_last() =~= first);
        assert(replay::sessions(first)[replay::sessions(events).len() as int] == id);
        assert(replay::sessions(first).contains(id));
    }
    let s = replay::replay(log, id)->0;
    assert forall|next: SessionId, later: Instant, second: CommandView|
        now.nanos <= later.nanos < s.metadata.deadline() && second.starts() implies (
    #[trigger] commands::decided(log, next, later, second)) is Err by {
        lemma_current(log, later);
        assert(is_active(log, id, later));
        assert(commands::may_start(log, later) is Err);
    }
}

/// Nothing happens out of turn: while a session is active, no other starts; a paused session cannot
/// be paused, nor a running one resumed.
pub proof fn nothing_happens_out_of_turn(
    events: Seq<StoredEventView>,
    id: SessionId,
    now: Instant,
    command: CommandView,
)
    requires
        commands::current(events, now) is Ok,
        commands::input_fault(command) is None,
    ensures
        ({
            let decided = commands::decided(events, id, now, command);
            let state = commands::current(events, now)->Ok_0.effective_state;
            &&& command.starts() ==> decided == Err::<commands::OutcomeView, _>(
                ErrorView::InvalidTransition(
                    "A Lokin session is already active. Stop it or let its deadline pass first."@,
                ),
            )
            &&& command is Pause && state == EffectiveState::Paused ==> decided == Err::<
                commands::OutcomeView,
                _,
            >(ErrorView::InvalidTransition("The current session is already paused."@))
            &&& command is Resume && state == EffectiveState::Running ==> decided == Err::<
                commands::OutcomeView,
                _,
            >(ErrorView::InvalidTransition("The current session is already running."@))
        }),
{
}

/// The active session after a command that was carried out on it.
proof fn lemma_own_session(
    events: Seq<StoredEventView>,
    id: SessionId,
    now: Instant,
    command: CommandView,
)
    requires
        !command.starts(),
        commands::decided(events, id, now, command) is Ok,
    ensures
        ({
            let outcome = commands::decided(events, id, now, command)->Ok_0;
            let own = outcome.session_id;
            let before = replay::replay(events, own);
            let log = log_after(events, id, now, command);
            &&& before is Some
            &&& commands::current(events, now) == Ok::<_, ErrorView>(
                replay::projected(before->0, now),
            )
            &&& before->0.consistent()
            &&& before->0.stopped_at is None
            &&& now.nanos < before->0.metadata.deadline()
            &&& outcome.appended.len() == 1 ==> replay::replay(log, own) == Some(
                replay::after(before, outcome.appended[0]),
            )
            &&& outcome.appended.len() == 2 ==> replay::replay(log, own) == Some(
                replay::after(
                    Some(replay::after(before, outcome.appended[0])),
                    outcome.appended[1],
                ),
            )
        }),
{
    lemma_current(events, now);
    lemma_appended(events, id, now, command);
    replay::lemma_sessions(events);
    let appended = commands::decided(events, id, now, command)->Ok_0.appended;
    let first = events.push(appended[0]);
    lemma_push(events, appended[0]);
    if appended.len() == 1 {
        assert(events + appended =~= first);
    } else {
        lemma_push(first, appended[1]);
        assert(events + appended =~= first.push(appended[1]));
    }
}

/// The life of a session: running, a pause pauses it; paused, resuming makes it run again; active,
/// a stop ends it. None of the three changes how much time has elapsed or is left, nor how it is
/// split between work and pauses up to that instant.
pub proof fn the_life_of_a_session(
    events: Seq<StoredEventView>,
    id: SessionId,
    now: Instant,
    command: CommandView,
)
    requires
        command is Pause || command is Resume || command is Stop,
        commands::decided(events, id, now, command) is Ok,
    ensures
        ({
            let own = commands::decided(events, id, now, command)->Ok_0.session_id;
            let before = replay::projected(replay::replay(events, own)->0, now);
            let after = replay::projected(
                replay::replay(log_after(events, id, now, command), own)->0,
                now,
            );
            &&& command is Pause ==> before.effective_state == EffectiveState::Running
                && after.effective_state == EffectiveState::Paused && after.current_pause_duration
                == Some(0int)
            &&& command is Resume ==> before.effective_state == EffectiveState::Paused
                && after.effective_state == EffectiveState::Running && after.current_pause_duration
                is None
            &&& command is Stop ==> before.effective_state.active() && after.effective_state
                == EffectiveState::Stopped && after.stopped_at == Some(now)
            &&& after.wall_clock_elapsed == before.wall_clock_elapsed
            &&& after.remaining_wall_clock == before.remaining_wall_clock
            &&& after.active_work_duration == before.active_work_duration
            &&& after.paused_duration == before.paused_duration
            &&& after.current_plan == before.current_plan
        }),
{
    lemma_own_session(events, id, now, command);
}

/// A pause that is ended at the instant at which it began leaves no trace in the session's times:
/// at every instant from then on, they are what they would have been without it.
pub proof fn a_pause_of_no_length_changes_nothing(
    events: Seq<StoredEventView>,
    id: SessionId,
    now: Instant,
    later: Instant,
)
    requires
        commands::pause_outcome(events, now, None) is Ok,
        now.nanos <= later.nanos,
    ensures
        ({
            let own = commands::pause_outcome(events, now, None)->Ok_0.session_id;
            let paused = log_after(events, id, now, CommandView::Pause { note: None });
            let resumed = log_after(paused, id, now, CommandView::Resume);
            &&& commands::resume_outcome(paused, now) is Ok
            &&& replay::projected(replay::replay(resumed, own)->0, later) == replay::projected(
                replay::replay(events, own)->0,
                later,
            )
        }),
{
    let pause = CommandView::Pause { note: None };
    let own = commands::pause_outcome(events, now, None)->Ok_0.session_id;
    assert(commands::decided(events, id, now, pause) == commands::pause_outcome(events, now, None));
    lemma_own_session(events, id, now, pause);
    lemma_appended(events, id, now, pause);
    lemma_current(events, now);
    let paused = log_after(events, id, now, pause);
    lemma_sole_current(events, paused, now, own);
    assert(commands::decided(paused, id, now, CommandView::Resume) == commands::resume_outcome(
        paused,
        now,
    ));
    lemma_own_session(paused, id, now, CommandView::Resume);
}

/// If the other sessions of the log stay as they are, the session that was active alone still is.
proof fn lemma_sole_current(
    events: Seq<StoredEventView>,
    log: Seq<StoredEventView>,
    now: Instant,
    own: SessionId,
)
    requires
        readable(log),
        is_active(log, own, now),
        forall|other: SessionId|
            other != own ==> #[trigger] replay::replay(log, other) == replay::replay(events, other),
        forall|other: SessionId| #[trigger] is_active(events, other, now) ==> other == own,
    ensures
        commands::current(log, now) == Ok::<_, ErrorView>(
            replay::projected(replay::replay(log, own)->0, now),
        ),
{
    lemma_projections(log, now);
    replay::lemma_sessions(log);
    let all = replay::projections(log, now);
    let ids = replay::sessions(log);
    let active = |p: ProjectionView| p.effective_state.active();
    lemma_filter_one(all, active);
    assert(ids.contains(own));
    let k = choose|k: int| 0 <= k < ids.len() && ids[k] == own;
    assert(active(all[k]));
    assert forall|i: int| 0 <= i < all.len() && i != k implies !active(#[trigger] all[i]) by {
        assert(ids[i] != ids[k]);
        assert(replay::replay(log, ids[i]) == replay::replay(events, ids[i]));
        assert(!is_active(events, ids[i], now));
    }
    assert(sole(all, active, k));
}

/// A checkpoint is recorded at the end of the session's checkpoints, with the instant and the note
/// without the white space around it, and it changes nothing else about the session.
pub proof fn a_checkpoint_only_adds_a_note(
    events: Seq<StoredEventView>,
    id: SessionId,
    now: Instant,
    note: Seq<char>,
    later: Instant,
)
    requires
        commands::checkpoint_outcome(events, now, note) is Ok,
    ensures
        ({
            let own = commands::checkpoint_outcome(events, now, note)->Ok_0.session_id;
            let before = replay::projected(replay::replay(events, own)->0, later);
            let after = replay::projected(
                replay::replay(
                    log_after(events, id, now, CommandView::Checkpoint { note }),
                    own,
                )->0,
                later,
            );
            after == ProjectionView {
                checkpoints: before.checkpoints.push(
                    session::CheckpointView {
                        occurred_at: now,
                        note: text::trimmed(note),
                    },
                ),
                ..before
            }
        }),
{
    let command = CommandView::Checkpoint { note };
    assert(commands::decided(events, id, now, command) == commands::checkpoint_outcome(
        events,
        now,
        note,
    ));
    lemma_own_session(events, id, now, command);
}

/// A plan that is changed, by hand or by a model, is the plan of the session from then on, and its
/// snapshot is kept behind the earlier ones; the times of the session stay as they are.
pub proof fn a_changed_plan_is_the_plan(
    events: Seq<StoredEventView>,
    id: SessionId,
    now: Instant,
    command: CommandView,
    later: Instant,
)
    requires
        command is PlanAdd || command is PlanUpdate || command is PlanRemove || command
            is PlanRevise,
        commands::decided(events, id, now, command) is Ok,
    ensures
        ({
            let outcome = commands::decided(events, id, now, command)->Ok_0;
            let own = outcome.session_id;
            let before = replay::projected(replay::replay(events, own)->0, later);
            let after = replay::projected(
                replay::replay(log_after(events, id, now, command), own)->0,
                later,
            );
            let plan = match command {
                CommandView::PlanRevise { session_id, base, plan, model } => plan,
                _ => outcome.plan_change->0.plan,
            };
            &&& after.current_plan == Some(plan)
            &&& after.plan_revisions.len() == before.plan_revisions.len() + 1
            &&& after.plan_revisions.drop_last() == before.plan_revisions
            &&& after.plan_revisions.last().plan == plan
            &&& after.plan_revisions.last().occurred_at == now
            &&& after.plan_revisions.last().created == (before.current_plan is None)
            &&& after == ProjectionView {
                current_plan: after.current_plan,
                plan_revisions: after.plan_revisions,
                ..before
            }
        }),
{
    lemma_own_session(events, id, now, command);
    let outcome = commands::decided(events, id, now, command)->Ok_0;
    let own = outcome.session_id;
    let after = replay::replay(log_after(events, id, now, command), own)->0;
    assert(after.plan_revisions.drop_last() =~= replay::replay(events, own)->0.plan_revisions);
}

/// Removing a step from a plan that one was added to, then or at any later instant of the session:
/// if it is the step that was added, the plan is again as it was (an empty one, if there was none);
/// if it is another, the plan is as it was without that step, and with the added one at its end.
pub proof fn removing_undoes_adding(
    events: Seq<StoredEventView>,
    id: SessionId,
    now: Instant,
    description: Seq<char>,
    duration_minutes: u16,
    later: Instant,
    item_number: usize,
)
    requires
        commands::plan_add_outcome(events, now, description, duration_minutes) is Ok,
        now.nanos <= later.nanos < commands::current(events, now)->Ok_0.metadata.deadline(),
        1 <= item_number <= commands::plan_add_outcome(
            events,
            now,
            description,
            duration_minutes,
        )->Ok_0.plan_change->0.plan.len(),
    ensures
        ({
            let added = log_after(
                events,
                id,
                now,
                CommandView::PlanAdd { description, duration_minutes },
            );
            let before = match commands::current(events, now)->Ok_0.current_plan {
                Some(plan) => plan,
                None => Seq::<PlanItemView>::empty(),
            };
            let step = PlanItemView {
                description: text::trimmed(description),
                duration_minutes,
                status: PlanItemStatus::Pending,
            };
            let left = commands::plan_remove_outcome(added, later, item_number);
            &&& left is Ok
            &&& left->Ok_0.plan_change->0.plan == if item_number == before.len() + 1 {
                before
            } else {
                before.remove(item_number - 1).push(step)
            }
        }),
{
    let command = CommandView::PlanAdd { description, duration_minutes };
    assert(commands::decided(events, id, now, command) == commands::plan_add_outcome(
        events,
        now,
        description,
        duration_minutes,
    ));
    lemma_own_session(events, id, now, command);
    lemma_appended(events, id, now, command);
    lemma_current(events, now);
    let own = commands::decided(events, id, now, command)->Ok_0.session_id;
    let added = log_after(events, id, now, command);
    assert forall|other: SessionId| #[trigger] is_active(events, other, later) implies other
        == own by {
        time_only_ends_sessions(events, other, now, later);
    }
    lemma_sole_current(events, added, later, own);
    let before = match commands::current(events, now)->Ok_0.current_plan {
        Some(plan) => plan,
        None => Seq::<PlanItemView>::empty(),
    };
    let plan = commands::current(added, later)->Ok_0.current_plan->0;
    if item_number == before.len() + 1 {
        assert(plan.remove(item_number - 1) =~= before);
    } else {
        assert(plan.remove(item_number - 1) =~= before.remove(item_number - 1).push(plan.last()));
    }
}

/// Sessions that were stopped or whose deadline has passed block nothing: a new session can start.
pub proof fn what_is_over_blocks_nothing(
    events: Seq<StoredEventView>,
    id: SessionId,
    now: Instant,
    goal: Seq<char>,
    duration_minutes: u16,
)
    requires
        readable(events),
        forall|other: SessionId|
            (#[trigger] replay::replay(events, other)) matches Some(s) ==> s.stopped_at is Some
                || s.metadata.deadline() <= now.nanos,
        !text::blank(goal),
        duration_minutes > 0,
    ensures
        commands::decided(events, id, now, CommandView::Start { goal, duration_minutes }) is Ok,
{
    lemma_current(events, now);
    assert(forall|other: SessionId| !#[trigger] is_active(events, other, now));
}

/// What was typed is looked at before the log: if it is not acceptable, the command is refused for
/// that, whatever the log holds.
pub proof fn bad_input_is_refused(
    events: Seq<StoredEventView>,
    id: SessionId,
    now: Instant,
    command: CommandView,
)
    requires
        commands::input_fault(command) is Some,
    ensures
        commands::decided(events, id, now, command) == Err::<commands::OutcomeView, _>(
            commands::input_fault(command)->0,
        ),
{
}

/// Nothing stands against the command but what sessions there are: what was typed is acceptable,
/// and a session whose plan is to be replaced has not changed meanwhile.
pub open spec fn acceptable(events: Seq<StoredEventView>, command: CommandView) -> bool {
    &&& commands::input_fault(command) is None
    &&& command matches CommandView::PlanRevise { session_id, base, .. } ==> commands::events_of(
        events,
        session_id,
    ) == base
}

/// Without an active session there is nothing to pause, resume, stop, note or plan: every such
/// command is refused, and for want of a session unless something else already stands against it.
pub proof fn nothing_without_a_session(
    events: Seq<StoredEventView>,
    id: SessionId,
    now: Instant,
    command: CommandView,
)
    requires
        readable(events),
        forall|other: SessionId| !#[trigger] is_active(events, other, now),
        !command.starts(),
    ensures
        commands::decided(events, id, now, command) is Err,
        acceptable(events, command) ==> commands::decided(events, id, now, command) == Err::<
            commands::OutcomeView,
            _,
        >(ErrorView::NoActiveSession),
{
    lemma_current(events, now);
    lemma_projections(events, now);
    let all = replay::projections(events, now);
    let active = |p: ProjectionView| p.effective_state.active();
    lemma_filter_none(all, active);
    assert forall|i: int| 0 <= i < all.len() implies !active(#[trigger] all[i]) by {
        assert(!is_active(events, replay::sessions(events)[i], now));
    }
}

/// The name of a session is in lower case and has no white space around it.
pub proof fn a_name_stands_for_itself(id: SessionId)
    ensures
        text::lowered(text::trimmed(session::hyphenated(id.value))) == session::hyphenated(
            id.value,
        ),
{
    let name = session::hyphenated(id.value);
    session::the_form_of_a_name(id.value);
    assert(session::in_a_name(name[0]) && session::in_a_name(name[35]));
    assert(text::trimmed(name) == name);
    assert forall|i: int| 0 <= i < name.len() implies text::ascii_lower(name[i]) == name[i]
        && #[trigger] name[i] as u32 <= 0x7f by {
        assert(session::in_a_name(name[i]));
    }
    assert(text::ascii_lowered(name) =~= name);
}

/// The full name of a session refers to it, and to no other, whatever other sessions there are; in
/// upper or lower case, and with or without white space around it.
pub proof fn a_full_name_finds_its_session(
    events: Seq<StoredEventView>,
    now: Instant,
    k: int,
    reference: Seq<char>,
)
    requires
        readable(events),
        0 <= k < replay::projections(events, now).len(),
        text::lowered(text::trimmed(reference)) == session::hyphenated(
            replay::projections(events, now)[k].metadata.session_id.value,
        ),
    ensures
        history::found(replay::projections(events, now), reference) == Ok::<_, ErrorView>(
            replay::projections(events, now)[k],
        ),
{
    lemma_projections(events, now);
    replay::lemma_sessions(events);
    let all = replay::projections(events, now);
    let ids = replay::sessions(events);
    let name = session::hyphenated(all[k].metadata.session_id.value);
    let wanted = |p: ProjectionView|
        text::has_prefix(session::hyphenated(p.metadata.session_id.value), name);
    session::the_form_of_a_name(ids[k].value);
    assert(name.take(name.len() as int) =~= name);
    assert forall|i: int| 0 <= i < all.len() && i != k implies !wanted(#[trigger] all[i]) by {
        let other = session::hyphenated(ids[i].value);
        session::the_form_of_a_name(ids[i].value);
        assert(other.take(name.len() as int) =~= other);
        if other == name {
            session::names_are_distinct(ids[i].value, ids[k].value);
            assert(ids[i] == ids[k]);
        }
    }
    lemma_filter_one(all, wanted);
    assert(sole(all, wanted, k));
    assert(history::named(all, name) =~= seq![all[k]]);
}

/// A reference that is taken for a session is the beginning of its name, and of no other's.
pub proof fn a_reference_is_never_a_guess(
    sessions: Seq<ProjectionView>,
    prefix: Seq<char>,
    reference: Seq<char>,
)
    requires
        history::found_by_prefix(sessions, prefix, reference) is Ok,
    ensures
        exists|k: int|
            0 <= k < sessions.len() && history::found_by_prefix(sessions, prefix, reference)
                == Ok::<_, ErrorView>(sessions[k]) && forall|i: int|
                0 <= i < sessions.len() ==> (text::has_prefix(
                    session::hyphenated((#[trigger] sessions[i]).metadata.session_id.value),
                    prefix,
                ) <==> i == k),
{
    let wanted = |p: ProjectionView|
        text::has_prefix(session::hyphenated(p.metadata.session_id.value), prefix);
    lemma_filter_one(sessions, wanted);
    let k = choose|k: int| sole(sessions, wanted, k);
    assert(history::named(sessions, prefix) == seq![sessions[k]]);
    assert(wanted(sessions[k]));
    assert forall|i: int| 0 <= i < sessions.len() implies (text::has_prefix(
        session::hyphenated((#[trigger] sessions[i]).metadata.session_id.value),
        prefix,
    ) <==> i == k) by {
        assert(wanted(sessions[i]) <==> i == k);
    }
}

/// The course of asking for a plan. A request that fails ends it with its own error, and there is
/// no other request. A plan that is accepted ends it. A plan that is rejected is asked for once
/// more, with the same system prompt, and with a user prompt that begins as the first one did and
/// says what was wrong. Whatever comes of the second request ends the asking: its error, its plan,
/// or what was wrong with that.
pub proof fn the_course_of_asking(asking: PlanInferenceView, first: ReplyView, second: ReplyView)
    requires
        !asking.corrected,
    ensures
        match first {
            ReplyView::Failed(e) => asking.step(first) == InferenceStepView::Failed(e),
            ReplyView::Decoded(decoded) => match llm::generated_plan(
                decoded,
                asking.remaining_wall_clock,
            ) {
                Ok(plan) => asking.step(first) == InferenceStepView::Accepted(plan),
                Err(rejection) => {
                    &&& asking.step(first) matches InferenceStepView::Ask(request)
                        && request.system_prompt == asking.request.system_prompt
                        && text::has_prefix(request.user_prompt, asking.request.user_prompt)
                        && text::has_infix(request.user_prompt, rejection.message())
                    &&& asking.next(first).step(second) == match second {
                        ReplyView::Failed(e) => InferenceStepView::Failed(e),
                        ReplyView::Decoded(decoded) => match llm::generated_plan(
                            decoded,
                            asking.remaining_wall_clock,
                        ) {
                            Ok(plan) => InferenceStepView::Accepted(plan),
                            Err(e) => InferenceStepView::Failed(e),
                        },
                    }
                },
            },
        },
{
    if let InferenceStepView::Ask(request) = asking.step(first) {
        let rejection = llm::generated_plan(
            first->Decoded_0,
            asking.remaining_wall_clock,
        )->Err_0.message();
        let prompt = asking.request.user_prompt;
        let at = (prompt.len() + "\n\nYour previous response was rejected: "@.len()) as int;
        assert(request.user_prompt.take(prompt.len() as int) =~= prompt);
        assert(request.user_prompt.subrange(at, at + rejection.len()) =~= rejection);
        assert(text::occurs_at(request.user_prompt, rejection, at));
    }
}

/// A plan of the model that is accepted is the one it gave: it has items, each of them with a
/// description and a duration, and they fit into the time that is left.
pub proof fn an_accepted_plan_fits(
    asking: PlanInferenceView,
    reply: ReplyView,
    plan: Seq<PlanItemView>,
)
    requires
        asking.step(reply) == InferenceStepView::Accepted(plan),
    ensures
        reply == ReplyView::Decoded(Ok(plan)),
        plan.len() > 0,
        forall|i: int|
            0 <= i < plan.len() ==> !text::blank((#[trigger] plan[i]).description)
                && plan[i].duration_minutes > 0,
        session::total_minutes(plan) * time::MINUTE <= asking.remaining_wall_clock,
{
    lemma_sound_plan(plan);
}

/// A plan without a fault has no item without a description or a duration.
proof fn lemma_sound_plan(plan: Seq<PlanItemView>)
    requires
        session::plan_fault(plan) is None,
    ensures
        forall|i: int|
            0 <= i < plan.len() ==> !text::blank((#[trigger] plan[i]).description)
                && plan[i].duration_minutes > 0,
    decreases plan.len(),
{
    if plan.len() > 0 {
        lemma_sound_plan(plan.drop_last());
        assert forall|i: int| 0 <= i < plan.len() implies !text::blank(
            (#[trigger] plan[i]).description,
        ) && plan[i].duration_minutes > 0 by {
            if i < plan.len() - 1 {
                assert(plan[i] == plan.drop_last()[i]);
            }
        }
    }
}

/// Which session the commands are about: the one that is active, if there is exactly one; without
/// one there is none to act on, and two are a fault of the log.
pub proof fn the_session_in_question(
    events: Seq<StoredEventView>,
    now: Instant,
    a: SessionId,
    b: SessionId,
)
    requires
        readable(events),
    ensures
        (forall|other: SessionId| !#[trigger] is_active(events, other, now)) <==> commands::current(
            events,
            now,
        ) == Err::<ProjectionView, _>(ErrorView::NoActiveSession),
        is_active(events, a, now) && (forall|other: SessionId| #[trigger]
            is_active(events, other, now) ==> other == a) ==> commands::current(events, now)
            == Ok::<_, ErrorView>(replay::projected(replay::replay(events, a)->0, now)),
        is_active(events, a, now) && is_active(events, b, now) && a != b ==> commands::current(
            events,
            now,
        ) == Err::<ProjectionView, _>(
            ErrorView::CorruptLog("more than one session is currently active"@),
        ),
{
    lemma_projections(events, now);
    replay::lemma_sessions(events);
    let all = replay::projections(events, now);
    let ids = replay::sessions(events);
    let active = |p: ProjectionView| p.effective_state.active();
    lemma_filter_none(all, active);
    lemma_filter_one(all, active);
    if forall|other: SessionId| !#[trigger] is_active(events, other, now) {
        assert forall|i: int| 0 <= i < all.len() implies !active(#[trigger] all[i]) by {
            assert(!is_active(events, ids[i], now));
        }
    } else {
        let other = choose|other: SessionId| is_active(events, other, now);
        assert(ids.contains(other));
        let k = choose|k: int| 0 <= k < ids.len() && ids[k] == other;
        assert(active(all[k]));
    }
    if is_active(events, a, now) && forall|other: SessionId| #[trigger]
        is_active(events, other, now) ==> other == a {
        lemma_sole_current(events, events, now, a);
    }
    if is_active(events, a, now) && is_active(events, b, now) && a != b {
        assert(ids.contains(a) && ids.contains(b));
        let i = choose|i: int| 0 <= i < ids.len() && ids[i] == a;
        let j = choose|j: int| 0 <= j < ids.len() && ids[j] == b;
        assert(active(all[i]) && active(all[j]));
        assert(forall|k: int| !#[trigger] sole(all, active, k));
    }
}

/// A step that a plan can hold: it has a description, and it takes some time.
pub open spec fn is_sound(item: PlanItemView) -> bool {
    !text::blank(item.description) && item.duration_minutes > 0
}

/// When a command is carried out, and when it is refused. Starting takes a goal, some time, and no
/// other active session. Everything else takes an active session; besides, pausing takes a running
/// one, resuming a paused one, a note some text, a step a description and some time, changing or
/// removing a step one that is there, and replacing the plan by one that is sound and fits, for the
/// same session, to which nothing has happened meanwhile.
pub proof fn when_a_command_is_carried_out(
    events: Seq<StoredEventView>,
    id: SessionId,
    now: Instant,
    command: CommandView,
)
    requires
        readable(events),
    ensures
        commands::decided(events, id, now, command) is Ok <==> ({
            let active = commands::current(events, now);
            let p = active->Ok_0;
            let plan = p.current_plan->0;
            let none_active = forall|other: SessionId| !#[trigger] is_active(events, other, now);
            match command {
                CommandView::Start { goal, duration_minutes } => none_active && !text::blank(goal)
                    && duration_minutes > 0,
                CommandView::StartWithPlan { .. } => none_active,
                CommandView::Pause { note } => {
                    &&& active is Ok
                    &&& p.effective_state == EffectiveState::Running
                    &&& note is Some ==> !text::blank(note->0)
                },
                CommandView::Checkpoint { note } => active is Ok && !text::blank(note),
                CommandView::Resume => active is Ok && p.effective_state == EffectiveState::Paused,
                CommandView::Stop => active is Ok,
                CommandView::PlanAdd { description, duration_minutes } => {
                    &&& active is Ok
                    &&& !text::blank(description) && duration_minutes > 0
                    &&& p.current_plan is Some ==> forall|i: int|
                        0 <= i < plan.len() ==> is_sound(#[trigger] plan[i])
                },
                CommandView::PlanUpdate { item_number, description, duration_minutes, status } => {
                    &&& active is Ok && p.current_plan is Some && 1 <= item_number <= plan.len()
                    &&& description is Some ==> !text::blank(description->0)
                    &&& duration_minutes is Some ==> duration_minutes->0 > 0
                    &&& status is Some ==> status->0 == "pending"@ || status->0 == "active"@
                        || status->0 == "completed"@ || status->0 == "skipped"@
                    &&& forall|i: int|
                        0 <= i < plan.len() && i != item_number - 1 ==> is_sound(
                            #[trigger] plan[i],
                        )
                    &&& description is None ==> !text::blank(plan[item_number - 1].description)
                    &&& duration_minutes is None ==> plan[item_number - 1].duration_minutes > 0
                },
                CommandView::PlanRemove { item_number } => active is Ok && p.current_plan is Some
                    && 1 <= item_number <= plan.len(),
                CommandView::PlanRevise { session_id, base, plan: new, model } => {
                    &&& active is Ok && p.metadata.session_id == session_id && p.current_plan
                        is Some
                    &&& base == replay::story(events, session_id)
                    &&& forall|i: int| 0 <= i < new.len() ==> is_sound(#[trigger] new[i])
                    &&& new.fold_left(
                        0int,
                        |sum: int, item: PlanItemView| sum + item.duration_minutes,
                    ) * 60_000_000_000 <= p.remaining_wall_clock
                },
            }
        }),
{
    lemma_current(events, now);
    let active = commands::current(events, now);
    match command {
        CommandView::PlanAdd { description, duration_minutes } => {
            if active is Ok {
                lemma_active_state(events, now);
                let before = match active->Ok_0.current_plan {
                    Some(plan) => plan,
                    None => Seq::<PlanItemView>::empty(),
                };
                let step = PlanItemView {
                    description: text::trimmed(description),
                    duration_minutes,
                    status: PlanItemStatus::Pending,
                };
                text::trimming_is_stable(description);
                lemma_sound_steps(before.push(step));
                lemma_sound_steps(before);
                if forall|i: int| 0 <= i < before.len() ==> is_sound(#[trigger] before[i]) {
                    assert(forall|i: int|
                        0 <= i < before.len() ==> before.push(step)[i] == #[trigger] before[i]);
                } else {
                    let k = choose|k: int| 0 <= k < before.len() && !is_sound(#[trigger] before[k]);
                    assert(before.push(step)[k] == before[k]);
                }
                assert(before.push(step)[before.len() as int] == step);
            }
        },
        CommandView::PlanUpdate { item_number, description, duration_minutes, status } => {
            if status is Some {
                session::only_names_stand_for_statuses(status->0, PlanItemStatus::Pending);
                session::only_names_stand_for_statuses(status->0, PlanItemStatus::Active);
                session::only_names_stand_for_statuses(status->0, PlanItemStatus::Completed);
                session::only_names_stand_for_statuses(status->0, PlanItemStatus::Skipped);
            }
            if active is Ok && active->Ok_0.current_plan is Some {
                let plan = active->Ok_0.current_plan->0;
                let change = commands::given_change(description, duration_minutes, status);
                if 1 <= item_number <= plan.len() && change is Ok {
                    let k = item_number - 1;
                    let step = change->Ok_0.apply(plan[k]);
                    if description is Some {
                        text::trimming_is_stable(description->0);
                    }
                    lemma_sound_steps(plan.update(k, step));
                    assert(plan.update(k, step)[k] == step);
                    assert forall|i: int| 0 <= i < plan.len() && i != k implies plan.update(
                        k,
                        step,
                    )[i] == #[trigger] plan[i] by {}
                }
            }
        },
        CommandView::PlanRevise { session_id, base, plan, model } => {
            lemma_sound_steps(plan);
            session::a_plan_takes_as_long_as_its_steps(plan, Seq::empty());
        },
        _ => {},
    }
}

/// The active session is in one of the two states that active sessions are in.
proof fn lemma_active_state(events: Seq<StoredEventView>, now: Instant)
    requires
        commands::current(events, now) is Ok,
    ensures
        commands::current(events, now)->Ok_0.effective_state.active(),
{
    lemma_current(events, now);
}

/// A plan without a fault has sound steps only.
proof fn lemma_sound_steps(plan: Seq<PlanItemView>)
    ensures
        session::plan_fault(plan) is None <==> forall|i: int|
            0 <= i < plan.len() ==> is_sound(#[trigger] plan[i]),
{
    session::a_plan_is_as_sound_as_its_steps(plan, 0);
    if session::plan_fault(plan) is None {
        assert forall|i: int| 0 <= i < plan.len() implies is_sound(#[trigger] plan[i]) by {}
    }
    if forall|i: int| 0 <= i < plan.len() ==> is_sound(#[trigger] plan[i]) {
        assert forall|i: int| 0 <= i < plan.len() implies !text::blank(
            (#[trigger] plan[i]).description,
        ) && plan[i].duration_minutes > 0 by {
            assert(is_sound(plan[i]));
        }
    }
}

/// A session that starts begins with nothing but its goal and its time: no note, and a plan only if
/// it was given one. A plan that it is given is kept whole, as its first and only snapshot, at the
/// instant of the start and in the name of the model.
pub proof fn a_session_starts_with_the_plan_it_was_given(
    events: Seq<StoredEventView>,
    id: SessionId,
    now: Instant,
    command: CommandView,
)
    requires
        command.starts(),
        commands::decided(events, id, now, command) is Ok,
        fresh_start(events, id, now, command),
    ensures
        replay::replay(log_after(events, id, now, command), id) is Some,
        ({
            let s = replay::replay(log_after(events, id, now, command), id)->0;
            &&& s.checkpoints.len() == 0
            &&& !s.paused && s.stopped_at is None
            &&& match command {
                CommandView::StartWithPlan { goal, duration_minutes, plan, model } => {
                    &&& s.metadata.goal == goal
                    &&& s.metadata.duration_minutes == duration_minutes
                    &&& s.current_plan == Some(plan)
                    &&& s.plan_revisions == seq![
                        PlanRevisionView {
                            occurred_at: now,
                            created: true,
                            plan,
                            source: PlanSourceView::Llm { provider: "groq"@, model },
                        },
                    ]
                },
                CommandView::Start { goal, duration_minutes } => {
                    &&& s.metadata.goal == text::trimmed(goal)
                    &&& s.metadata.duration_minutes == duration_minutes
                    &&& s.current_plan is None && s.plan_revisions.len() == 0
                },
                _ => true,
            }
            &&& s.metadata.start_time == now
            &&& s.metadata.session_id == id
        }),
{
    lemma_appended(events, id, now, command);
    let appended = commands::decided(events, id, now, command)->Ok_0.appended;
    let first = events.push(appended[0]);
    lemma_push(events, appended[0]);
    if appended.len() == 1 {
        assert(events + appended =~= first);
    } else {
        lemma_push(first, appended[1]);
        assert(events + appended =~= first.push(appended[1]));
    }
    let s = replay::replay(log_after(events, id, now, command), id)->0;
    if command is StartWithPlan {
        assert(s.plan_revisions =~= seq![s.plan_revisions[0]]);
    }
}

/// A pause keeps the note that comes with it, as a checkpoint of the same instant, and without one
/// it adds none. Resuming and stopping add none.
pub proof fn a_pause_keeps_its_note(
    events: Seq<StoredEventView>,
    id: SessionId,
    now: Instant,
    command: CommandView,
)
    requires
        command is Pause || command is Resume || command is Stop,
        commands::decided(events, id, now, command) is Ok,
    ensures
        ({
            let own = commands::decided(events, id, now, command)->Ok_0.session_id;
            let before = replay::replay(events, own)->0;
            let after = replay::replay(log_after(events, id, now, command), own)->0;
            &&& after.metadata == before.metadata
            &&& after.current_plan == before.current_plan
            &&& after.plan_revisions == before.plan_revisions
            &&& after.checkpoints == match command {
                CommandView::Pause { note: Some(note) } => before.checkpoints.push(
                    session::CheckpointView { occurred_at: now, note: text::trimmed(note) },
                ),
                _ => before.checkpoints,
            }
        }),
{
    lemma_own_session(events, id, now, command);
}

/// What the user does to a plan by hand. Adding puts a pending step at its end, and makes the plan
/// if there was none. Changing a step changes what was given and nothing else about it, and no
/// other step. Removing a step leaves the others in their order. The snapshot is the user's own,
/// and what is said of the change is the plan as it is then, the session's budget, and the time
/// that is left of it.
pub proof fn what_the_user_does_to_a_plan(
    events: Seq<StoredEventView>,
    id: SessionId,
    now: Instant,
    command: CommandView,
)
    requires
        command is PlanAdd || command is PlanUpdate || command is PlanRemove,
        commands::decided(events, id, now, command) is Ok,
    ensures
        ({
            let outcome = commands::decided(events, id, now, command)->Ok_0;
            let p = commands::current(events, now)->Ok_0;
            let before = match p.current_plan {
                Some(plan) => plan,
                None => Seq::<PlanItemView>::empty(),
            };
            let after = replay::replay(log_after(events, id, now, command), outcome.session_id)->0;
            let plan = after.current_plan->0;
            &&& after.current_plan is Some
            &&& after.plan_revisions.last() == PlanRevisionView {
                occurred_at: now,
                created: p.current_plan is None,
                plan,
                source: PlanSourceView::Manual,
            }
            &&& outcome.session_id == p.metadata.session_id
            &&& outcome.plan_change is Some
            &&& outcome.plan_change->0.plan == plan
            &&& outcome.plan_change->0.created == (p.current_plan is None)
            &&& outcome.plan_change->0.session_budget_minutes == p.metadata.duration_minutes
            &&& outcome.plan_change->0.remaining_wall_clock == p.remaining_wall_clock
            &&& match command {
                CommandView::PlanAdd { description, duration_minutes } => plan == before.push(
                    PlanItemView {
                        description: text::trimmed(description),
                        duration_minutes,
                        status: PlanItemStatus::Pending,
                    },
                ),
                CommandView::PlanUpdate { item_number, description, duration_minutes, status } => {
                    let k = item_number - 1;
                    &&& plan.len() == before.len()
                    &&& 0 <= k < plan.len()
                    &&& forall|i: int|
                        0 <= i < plan.len() && i != k ==> #[trigger] plan[i] == before[i]
                    &&& plan[k].description == match description {
                        Some(description) => text::trimmed(description),
                        None => before[k].description,
                    }
                    &&& plan[k].duration_minutes == match duration_minutes {
                        Some(duration_minutes) => duration_minutes,
                        None => before[k].duration_minutes,
                    }
                    &&& status is None ==> plan[k].status == before[k].status
                    &&& status matches Some(word) ==> word == plan[k].status.spec_name()
                },
                CommandView::PlanRemove { item_number } => {
                    let k = item_number - 1;
                    &&& 0 <= k < before.len()
                    &&& plan == before.take(k) + before.skip(k + 1)
                },
                _ => true,
            }
        }),
{
    lemma_own_session(events, id, now, command);
    lemma_current(events, now);
    let p = commands::current(events, now)->Ok_0;
    match command {
        CommandView::PlanUpdate { item_number, description, duration_minutes, status } => {
            if status is Some {
                let change = commands::given_change(description, duration_minutes, status)->Ok_0;
                session::only_names_stand_for_statuses(status->0, change.status->0);
            }
        },
        CommandView::PlanRemove { item_number } => {
            let before = p.current_plan->0;
            let k = item_number - 1;
            assert(before.remove(k) =~= before.take(k) + before.skip(k + 1));
        },
        _ => {},
    }
}

/// A plan of the model that replaces another is kept whole, in the name of the model, and it does
/// not count as a change by hand.
pub proof fn a_revision_is_in_the_name_of_the_model(
    events: Seq<StoredEventView>,
    id: SessionId,
    now: Instant,
    session_id: SessionId,
    base: Seq<StoredEventView>,
    plan: Seq<PlanItemView>,
    model: Seq<char>,
)
    requires
        commands::decided(
            events,
            id,
            now,
            CommandView::PlanRevise { session_id, base, plan, model },
        ) is Ok,
    ensures
        ({
            let command = CommandView::PlanRevise { session_id, base, plan, model };
            let outcome = commands::decided(events, id, now, command)->Ok_0;
            let after = replay::replay(log_after(events, id, now, command), session_id)->0;
            &&& outcome.session_id == session_id
            &&& outcome.plan_change is None
            &&& after.current_plan == Some(plan)
            &&& after.plan_revisions.last() == PlanRevisionView {
                occurred_at: now,
                created: false,
                plan,
                source: PlanSourceView::Llm { provider: "groq"@, model },
            }
        }),
{
    let command = CommandView::PlanRevise { session_id, base, plan, model };
    lemma_own_session(events, id, now, command);
    lemma_current(events, now);
}

/// A plan is not replaced if anything has happened to its session since the model was asked,
/// whatever it was; what happened to other sessions does not stand in the way.
pub proof fn a_revision_notices_every_change(
    events: Seq<StoredEventView>,
    more: Seq<StoredEventView>,
    id: SessionId,
    now: Instant,
    session_id: SessionId,
    plan: Seq<PlanItemView>,
    model: Seq<char>,
)
    ensures
        ({
            let base = commands::events_of(events, session_id);
            let revised = commands::decided(
                events + more,
                id,
                now,
                CommandView::PlanRevise { session_id, base, plan, model },
            );
            &&& (exists|i: int| 0 <= i < more.len() && (#[trigger] more[i]).session_id
                == session_id) ==> revised == Err::<commands::OutcomeView, _>(
                ErrorView::InvalidTransition(
                    "The session changed while the plan was being generated. Rerun `lokin plan revise`."@,
                ),
            )
            &&& (forall|i: int| 0 <= i < more.len() ==> (#[trigger] more[i]).session_id
                != session_id) ==> base == commands::events_of(events + more, session_id)
        }),
{
    let own = |e: StoredEventView| e.session_id == session_id;
    Seq::filter_distributes_over_add(events, more, own);
    lemma_filter_none(more, own);
    let base = commands::events_of(events, session_id);
    if exists|i: int| 0 <= i < more.len() && (#[trigger] more[i]).session_id == session_id {
        let i = choose|i: int| 0 <= i < more.len() && (#[trigger] more[i]).session_id == session_id;
        assert(own(more[i]));
        assert(more.filter(own).len() > 0);
        assert(commands::events_of(events + more, session_id).len() > base.len());
    } else {
        assert(base + more.filter(own) =~= base);
    }
}

/// A model's plan is accepted at once, whatever its statuses, exactly if it could be decoded, has a
/// step, has only sound steps, and takes no longer than there is time; and then as it is.
pub proof fn a_plan_that_fits_is_accepted(asking: PlanInferenceView, plan: Seq<PlanItemView>)
    ensures
        ({
            let fits = plan.len() > 0 && (forall|i: int|
                0 <= i < plan.len() ==> is_sound(#[trigger] plan[i])) && plan.fold_left(
                0int,
                |sum: int, item: PlanItemView| sum + item.duration_minutes,
            ) * 60_000_000_000 <= asking.remaining_wall_clock;
            &&& fits ==> asking.step(ReplyView::Decoded(Ok(plan))) == InferenceStepView::Accepted(
                plan,
            )
            &&& !fits ==> !(asking.step(ReplyView::Decoded(Ok(plan))) is Accepted)
            &&& llm::generated_plan(Ok(plan), asking.remaining_wall_clock) is Ok <==> fits
        }),
        forall|reason: Seq<char>|
            !(#[trigger] asking.step(ReplyView::Decoded(Err(reason))) is Accepted),
{
    lemma_sound_steps(plan);
    session::a_plan_takes_as_long_as_its_steps(plan, Seq::empty());
}

/// What is said against what was typed, and when: nothing else is wrong with a command by itself.
pub proof fn what_is_said_of_bad_input(command: CommandView)
    ensures
        commands::input_fault(command) == ({
            let empty = |label: Seq<char>|
                Some(ErrorView::InvalidInput(label + " cannot be empty."@));
            let no_time = |label: Seq<char>|
                Some(ErrorView::InvalidInput(label + " must be longer than zero minutes."@));
            match command {
                CommandView::Start { goal, duration_minutes } => if text::blank(goal) {
                    empty("Goal"@)
                } else if duration_minutes == 0 {
                    no_time("Session duration"@)
                } else {
                    None
                },
                CommandView::Pause { note: Some(note) } => if text::blank(note) {
                    empty("Checkpoint note"@)
                } else {
                    None
                },
                CommandView::Checkpoint { note } => if text::blank(note) {
                    empty("Checkpoint note"@)
                } else {
                    None
                },
                CommandView::PlanAdd { description, duration_minutes } => if text::blank(
                    description,
                ) {
                    empty("Plan item description"@)
                } else if duration_minutes == 0 {
                    no_time("Plan item duration"@)
                } else {
                    None
                },
                CommandView::PlanUpdate { item_number, description, duration_minutes, status } =>
                    if status is Some && status->0 != "pending"@ && status->0 != "active"@
                    && status->0 != "completed"@ && status->0 != "skipped"@ {
                    Some(
                        ErrorView::InvalidInput(
                            "Unknown plan item status '"@ + status->0 + "'."@,
                        ),
                    )
                } else if description is Some && text::blank(description->0) {
                    empty("Plan item description"@)
                } else if duration_minutes == Some(0u16) {
                    no_time("Plan item duration"@)
                } else {
                    None
                },
                _ => None,
            }
        }),
{
}

/// What is told of a command that is acceptable in itself but comes at the wrong moment.
pub proof fn what_is_said_of_a_refusal(
    events: Seq<StoredEventView>,
    id: SessionId,
    now: Instant,
    command: CommandView,
)
    requires
        commands::current(events, now) is Ok,
        commands::input_fault(command) is None,
    ensures
        ({
            let decided = commands::decided(events, id, now, command);
            let p = commands::current(events, now)->Ok_0;
            let refused = |what: Seq<char>|
                Err::<commands::OutcomeView, _>(ErrorView::InvalidTransition(what));
            let no_such_step = |item_number: usize|
                Err::<commands::OutcomeView, _>(
                    ErrorView::InvalidInput(
                        "Plan item "@ + text::decimal(item_number as nat)
                            + " does not exist; choose a number from 1 to "@ + text::decimal(
                            p.current_plan->0.len(),
                        ) + "."@,
                    ),
                );
            match command {
                CommandView::PlanUpdate { item_number, .. } => {
                    &&& p.current_plan is None ==> decided == refused(
                        "No plan exists yet. Add the first item with `lokin plan add`."@,
                    )
                    &&& p.current_plan is Some && !(1 <= item_number <= p.current_plan->0.len())
                        ==> decided == no_such_step(item_number)
                },
                CommandView::PlanRemove { item_number } => {
                    &&& p.current_plan is None ==> decided == refused(
                        "No plan exists for this session."@,
                    )
                    &&& p.current_plan is Some && !(1 <= item_number <= p.current_plan->0.len())
                        ==> decided == no_such_step(item_number)
                },
                CommandView::PlanRevise { session_id, base, plan, .. } => {
                    &&& base == replay::story(events, session_id) && (p.metadata.session_id
                        != session_id || p.current_plan is None) ==> decided == refused(
                        "The active session changed while the plan was being generated. Rerun `lokin plan revise`."@,
                    )
                    &&& base != replay::story(events, session_id) ==> decided == refused(
                        "The session changed while the plan was being generated. Rerun `lokin plan revise`."@,
                    )
                },
                _ => true,
            }
        }),
{
}

/// A log that cannot be read stops every command that is acceptable in itself, and everything that
/// would be shown of it, with one and the same failure.
pub proof fn a_log_that_cannot_be_read_stops_everything(
    events: Seq<StoredEventView>,
    id: SessionId,
    now: Instant,
    command: CommandView,
    text: Option<Seq<char>>,
)
    requires
        !readable(events),
        acceptable(events, command),
    ensures
        ({
            let failure = replay::corrupt_log(replay::first_fault(events)->0);
            &&& commands::decided(events, id, now, command) == Err::<commands::OutcomeView, _>(
                failure,
            )
            &&& history::status_text(events, now) == Err::<Seq<char>, _>(failure)
            &&& history::plan_show_text(events, now) == Err::<Seq<char>, _>(failure)
            &&& history::history_text(events, now, text) == Err::<Seq<char>, _>(failure)
            &&& history::history_show_text(events, now, text->0) == Err::<Seq<char>, _>(failure)
        }),
{
}

/// A plan can be revised exactly if there is an active session and it has a plan.
pub proof fn when_a_plan_can_be_revised(events: Seq<StoredEventView>, now: Instant)
    requires
        readable(events),
    ensures
        commands::required_revisable(replay::projections(events, now)) == match commands::current(
            events,
            now,
        ) {
            Err(e) => Err(e),
            Ok(p) => if p.current_plan is Some {
                Ok(p)
            } else {
                Err(
                    ErrorView::InvalidTransition(
                        "No plan exists yet. Start with `lokin plan add` or begin a new session with `--plan`."@,
                    ),
                )
            },
        },
{
}

} // verus!
