//! From the log of events to the sessions that they tell of.
//!
//! A session is the sum of its events, applied in the order of the log. Its clock only moves
//! forward, and it stands still at the deadline: pauses and late events never buy time.

use vstd::prelude::*;

use crate::error::{ErrorView, LokinError};
use crate::session;
use crate::session::{
    Checkpoint, CheckpointView, EffectiveState, EventView, MetadataView, Plan, PlanItemView,
    PlanRevision, PlanRevisionView, ProjectionView, SessionEvent, SessionId, SessionMetadata,
    SessionProjection, StoredEvent, StoredEventView,
};
use crate::time;
use crate::time::{Duration, Instant, Timestamp};

verus! {

/// What can be wrong with an event, given the events of its session before it.
#[derive(Clone, Copy, Debug, PartialEq, Eq, Structural)]
pub enum Fault {
    /// The session has not started yet.
    MissingStart,
    /// The session has started already.
    SecondStart,
    /// The calendar ends before the session does.
    NoDeadline,
    /// The session is stopped.
    AfterStop,
    /// The session is paused already.
    AlreadyPaused,
    /// The session is not paused.
    NotPaused,
    /// The session has a plan already.
    SecondPlan,
    /// The session has no plan yet.
    MissingPlan,
}

impl Fault {
    /// What the user reads of the fault, after the name of the session.
    pub open spec fn spec_text(self) -> Seq<char> {
        match self {
            Fault::MissingStart => " has an event before its start"@,
            Fault::SecondStart => " starts more than once"@,
            Fault::NoDeadline => " has a deadline outside the calendar"@,
            Fault::AfterStop => " has an event after its stop"@,
            Fault::AlreadyPaused => " is paused while it is paused"@,
            Fault::NotPaused => " is resumed while it is running"@,
            Fault::SecondPlan => " creates a plan while it has one"@,
            Fault::MissingPlan => " revises a plan while it has none"@,
        }
    }

    /// What the user reads of the fault, after the name of the session.
    pub fn text(&self) -> (res: &'static str)
        ensures
            res@ == self.spec_text(),
    {
        match self {
            Fault::MissingStart => " has an event before its start",
            Fault::SecondStart => " starts more than once",
            Fault::NoDeadline => " has a deadline outside the calendar",
            Fault::AfterStop => " has an event after its stop",
            Fault::AlreadyPaused => " is paused while it is paused",
            Fault::NotPaused => " is resumed while it is running",
            Fault::SecondPlan => " creates a plan while it has one",
            Fault::MissingPlan => " revises a plan while it has none",
        }
    }
}

/// What the events of one session add up to, before it is asked what time it is.
#[verifier::ext_equal]
pub struct StateView {
    pub metadata: MetadataView,
    /// The last of pause and resume was a pause.
    pub paused: bool,
    /// The session's clock at its last start, pause, resume or stop.
    pub mark: int,
    /// The time that went by in pauses before `mark`.
    pub paused_total: int,
    pub stopped_at: Option<Instant>,
    pub checkpoints: Seq<CheckpointView>,
    pub current_plan: Option<Seq<PlanItemView>>,
    pub plan_revisions: Seq<PlanRevisionView>,
}

impl StateView {
    /// The session's clock at the instant `t`: never before its last reading, never after the
    /// deadline.
    pub open spec fn clock(self, t: int) -> int {
        let stopped = if t < self.metadata.deadline() {
            t
        } else {
            self.metadata.deadline()
        };
        if stopped < self.mark {
            self.mark
        } else {
            stopped
        }
    }

    /// What always holds of the sum of a session's events: its clock lies between start and
    /// deadline, and no more time went by in pauses than went by at all.
    pub open spec fn consistent(self) -> bool {
        &&& time::in_calendar(self.metadata.deadline())
        &&& self.metadata.start_time.nanos <= self.mark <= self.metadata.deadline()
        &&& 0 <= self.paused_total <= self.mark - self.metadata.start_time.nanos
        &&& self.current_plan is Some <==> self.plan_revisions.len() > 0
        &&& self.current_plan is Some ==> self.current_plan == Some(
            self.plan_revisions.last().plan,
        )
    }
}

/// What is wrong with the event `e` of a session whose earlier events add up to `state`.
pub open spec fn fault(state: Option<StateView>, e: StoredEventView) -> Option<Fault> {
    match state {
        None => match e.event {
            EventView::SessionStarted { goal, duration_minutes } => if time::in_calendar(
                e.occurred_at.nanos + duration_minutes * time::MINUTE,
            ) {
                None
            } else {
                Some(Fault::NoDeadline)
            },
            _ => Some(Fault::MissingStart),
        },
        Some(s) => if e.event is SessionStarted {
            Some(Fault::SecondStart)
        } else if s.stopped_at is Some {
            Some(Fault::AfterStop)
        } else {
            match e.event {
                EventView::SessionPaused if s.paused => Some(Fault::AlreadyPaused),
                EventView::SessionResumed if !s.paused => Some(Fault::NotPaused),
                EventView::PlanCreated { .. } if s.current_plan is Some => Some(Fault::SecondPlan),
                EventView::PlanRevised { .. } if s.current_plan is None => Some(Fault::MissingPlan),
                _ => None,
            }
        },
    }
}

/// What the events of a session add up to when `e` follows those that add up to `state`.
pub open spec fn after(state: Option<StateView>, e: StoredEventView) -> StateView
    recommends
        fault(state, e) is None,
{
    let s = state->0;
    let t = e.occurred_at;
    match e.event {
        EventView::SessionStarted { goal, duration_minutes } => StateView {
            metadata: MetadataView {
                session_id: e.session_id,
                goal,
                duration_minutes,
                start_time: t,
            },
            paused: false,
            mark: t.nanos,
            paused_total: 0,
            stopped_at: None,
            checkpoints: seq![],
            current_plan: None,
            plan_revisions: seq![],
        },
        EventView::SessionPaused => StateView { paused: true, mark: s.clock(t.nanos), ..s },
        EventView::SessionResumed => StateView {
            paused: false,
            mark: s.clock(t.nanos),
            paused_total: s.paused_total + (s.clock(t.nanos) - s.mark),
            ..s
        },
        EventView::CheckpointAdded { note } => StateView {
            checkpoints: s.checkpoints.push(CheckpointView { occurred_at: t, note }),
            ..s
        },
        EventView::PlanCreated { plan, source } => StateView {
            current_plan: Some(plan),
            plan_revisions: s.plan_revisions.push(
                PlanRevisionView { occurred_at: t, created: true, plan, source },
            ),
            ..s
        },
        EventView::PlanRevised { plan, source } => StateView {
            current_plan: Some(plan),
            plan_revisions: s.plan_revisions.push(
                PlanRevisionView { occurred_at: t, created: false, plan, source },
            ),
            ..s
        },
        EventView::SessionStopped => StateView {
            mark: s.clock(t.nanos),
            paused_total: s.paused_total + if s.paused {
                s.clock(t.nanos) - s.mark
            } else {
                0
            },
            stopped_at: Some(t),
            ..s
        },
    }
}

/// What the events of the session `id` in the log add up to; nothing, if it has none.
pub open spec fn replay(events: Seq<StoredEventView>, id: SessionId) -> Option<StateView>
    decreases events.len(),
{
    if events.len() == 0 {
        None
    } else {
        let before = replay(events.drop_last(), id);
        if events.last().session_id == id {
            Some(after(before, events.last()))
        } else {
            before
        }
    }
}

/// The first event of the log that has a fault: its session, and the fault.
pub open spec fn first_fault(events: Seq<StoredEventView>) -> Option<(SessionId, Fault)>
    decreases events.len(),
{
    if events.len() == 0 {
        None
    } else if first_fault(events.drop_last()) is Some {
        first_fault(events.drop_last())
    } else {
        let e = events.last();
        match fault(replay(events.drop_last(), e.session_id), e) {
            Some(fault) => Some((e.session_id, fault)),
            None => None,
        }
    }
}

/// The sessions of the log, in the order of their first events.
pub open spec fn sessions(events: Seq<StoredEventView>) -> Seq<SessionId>
    decreases events.len(),
{
    if events.len() == 0 {
        seq![]
    } else {
        let before = sessions(events.drop_last());
        if before.contains(events.last().session_id) {
            before
        } else {
            before.push(events.last().session_id)
        }
    }
}

/// What a session is at the instant `now`.
pub open spec fn projected(s: StateView, now: Instant) -> ProjectionView {
    let effective_state = if s.stopped_at is Some {
        EffectiveState::Stopped
    } else if s.metadata.deadline() <= now.nanos {
        EffectiveState::Completed
    } else if s.paused {
        EffectiveState::Paused
    } else {
        EffectiveState::Running
    };
    let end = if s.stopped_at is Some {
        s.mark
    } else {
        s.clock(now.nanos)
    };
    let elapsed = end - s.metadata.start_time.nanos;
    let paused = s.paused_total + if s.paused && s.stopped_at is None {
        end - s.mark
    } else {
        0
    };
    ProjectionView {
        metadata: s.metadata,
        effective_state,
        stopped_at: s.stopped_at,
        wall_clock_elapsed: elapsed,
        remaining_wall_clock: s.metadata.deadline() - end,
        active_work_duration: elapsed - paused,
        paused_duration: paused,
        current_pause_duration: if effective_state == EffectiveState::Paused {
            Some(end - s.mark)
        } else {
            None
        },
        checkpoints: s.checkpoints,
        current_plan: s.current_plan,
        plan_revisions: s.plan_revisions,
    }
}

/// The sessions of a log without faults as they are at the instant `now`.
pub open spec fn projections(events: Seq<StoredEventView>, now: Instant) -> Seq<ProjectionView> {
    Seq::new(
        sessions(events).len(),
        |k: int| projected(replay(events, sessions(events)[k])->0, now),
    )
}

/// A log with a fault cannot be read.
pub open spec fn corrupt_log(found: (SessionId, Fault)) -> ErrorView {
    ErrorView::CorruptLog("session "@ + session::hyphenated(found.0.value) + found.1.spec_text())
}

/// The sessions that a log tells of, as they are at the instant `now`.
pub open spec fn reconstructed(events: Seq<StoredEventView>, now: Instant) -> Result<
    Seq<ProjectionView>,
    ErrorView,
> {
    match first_fault(events) {
        Some(found) => Err(corrupt_log(found)),
        None => Ok(projections(events, now)),
    }
}

/// What the events of one session add up to.
struct SessionState {
    metadata: SessionMetadata,
    deadline: Timestamp,
    paused: bool,
    mark: Timestamp,
    paused_total: Duration,
    stopped_at: Option<Timestamp>,
    checkpoints: Vec<Checkpoint>,
    current_plan: Option<Plan>,
    plan_revisions: Vec<PlanRevision>,
}

impl View for SessionState {
    type V = StateView;

    closed spec fn view(&self) -> StateView {
        StateView {
            metadata: self.metadata@,
            paused: self.paused,
            mark: self.mark@.nanos,
            paused_total: self.paused_total@,
            stopped_at: time::optional_instant(self.stopped_at),
            checkpoints: session::views(self.checkpoints@),
            current_plan: session::optional_view(self.current_plan),
            plan_revisions: session::views(self.plan_revisions@),
        }
    }
}

impl SessionState {
    /// What always holds of the state of a session.
    spec fn valid(&self) -> bool {
        &&& self@.consistent()
        &&& self.deadline@.nanos == self@.metadata.deadline()
    }

    /// The state after a start.
    fn started(
        session_id: SessionId,
        goal: &String,
        duration_minutes: u16,
        start_time: Timestamp,
        deadline: Timestamp,
    ) -> (res: SessionState)
        requires
            time::in_calendar(deadline@.nanos),
            deadline@.nanos == start_time@.nanos + duration_minutes * time::MINUTE,
        ensures
            res.valid(),
            forall|before: Option<StateView>, e: StoredEventView|
                e.session_id == session_id && e.occurred_at == start_time@ && e.event
                    == (EventView::SessionStarted { goal: goal@, duration_minutes })
                    ==> #[trigger] after(before, e) == res@,
    {
        let res = SessionState {
            metadata: SessionMetadata { session_id, goal: goal.clone(), duration_minutes, start_time },
            deadline,
            paused: false,
            mark: start_time,
            paused_total: Duration { nanos: 0 },
            stopped_at: None,
            checkpoints: Vec::new(),
            current_plan: None,
            plan_revisions: Vec::new(),
        };
        proof {
            assert(res@.checkpoints =~= seq![]);
            assert(res@.plan_revisions =~= seq![]);
        }
        res
    }

    /// The session's clock at the instant `t`.
    fn clock(&self, t: Timestamp) -> (res: Timestamp)
        requires
            self.valid(),
        ensures
            res@.nanos == self@.clock(t@.nanos),
            self@.mark <= res@.nanos <= self@.metadata.deadline(),
    {
        t.earlier_of(self.deadline).later_of(self.mark)
    }

    /// What is wrong with `event`, given the events so far.
    fn fault(&self, event: &SessionEvent) -> (res: Option<Fault>)
        ensures
            forall|e: StoredEventView|
                e.event == event@ ==> #[trigger] fault(Some(self@), e) == res,
    {
        if matches!(event, SessionEvent::SessionStarted { .. }) {
            return Some(Fault::SecondStart);
        }
        if self.stopped_at.is_some() {
            return Some(Fault::AfterStop);
        }
        match event {
            SessionEvent::SessionPaused if self.paused => Some(Fault::AlreadyPaused),
            SessionEvent::SessionResumed if !self.paused => Some(Fault::NotPaused),
            SessionEvent::PlanCreated { .. } if self.current_plan.is_some() => Some(
                Fault::SecondPlan,
            ),
            SessionEvent::PlanRevised { .. } if self.current_plan.is_none() => Some(
                Fault::MissingPlan,
            ),
            _ => None,
        }
    }

    /// Takes in an event that has no fault.
    fn apply(&mut self, occurred_at: Timestamp, event: &SessionEvent)
        requires
            old(self).valid(),
            !(event@ is SessionStarted),
        ensures
            final(self).valid(),
            forall|e: StoredEventView|
                e.event == event@ && e.occurred_at == occurred_at@ ==> #[trigger] after(
                    Some(old(self)@),
                    e,
                ) == final(self)@,
    {
        let now = self.clock(occurred_at);
        let since_mark = now.since(&self.mark);
        match event {
            SessionEvent::SessionStarted { .. } => {},
            SessionEvent::SessionPaused => {
                self.paused = true;
                self.mark = now;
            },
            SessionEvent::SessionResumed => {
                self.paused_total = Duration { nanos: self.paused_total.nanos + since_mark.nanos };
                self.paused = false;
                self.mark = now;
            },
            SessionEvent::CheckpointAdded { note } => {
                let ghost before = self@.checkpoints;
                self.checkpoints.push(Checkpoint { occurred_at, note: note.clone() });
                assert(self@.checkpoints =~= before.push(
                    CheckpointView { occurred_at: occurred_at@, note: note@ },
                ));
            },
            SessionEvent::PlanCreated { plan, source } => {
                let ghost before = self@.plan_revisions;
                let revision = PlanRevision {
                    occurred_at,
                    created: true,
                    plan: plan.clone(),
                    source: source.clone(),
                };
                let ghost added = revision@;
                self.plan_revisions.push(revision);
                self.current_plan = Some(plan.clone());
                assert(self@.plan_revisions =~= before.push(added));
            },
            SessionEvent::PlanRevised { plan, source } => {
                let ghost before = self@.plan_revisions;
                let revision = PlanRevision {
                    occurred_at,
                    created: false,
                    plan: plan.clone(),
                    source: source.clone(),
                };
                let ghost added = revision@;
                self.plan_revisions.push(revision);
                self.current_plan = Some(plan.clone());
                assert(self@.plan_revisions =~= before.push(added));
            },
            SessionEvent::SessionStopped => {
                if self.paused {
                    self.paused_total =
                    Duration { nanos: self.paused_total.nanos + since_mark.nanos };
                }
                self.mark = now;
                self.stopped_at = Some(occurred_at);
            },
        }
    }

    /// What the session is at the instant `now`.
    fn project(self, now: Timestamp) -> (res: SessionProjection)
        requires
            self.valid(),
        ensures
            res@ == projected(self@, now@),
    {
        let stopped = self.stopped_at.is_some();
        let effective_state = if stopped {
            EffectiveState::Stopped
        } else if !now.is_before(&self.deadline) {
            EffectiveState::Completed
        } else if self.paused {
            EffectiveState::Paused
        } else {
            EffectiveState::Running
        };
        let end = if stopped {
            self.mark
        } else {
            self.clock(now)
        };
        let elapsed = end.since(&self.metadata.start_time);
        let since_mark = end.since(&self.mark);
        let paused = if self.paused && !stopped {
            Duration { nanos: self.paused_total.nanos + since_mark.nanos }
        } else {
            self.paused_total
        };
        SessionProjection {
            effective_state,
            stopped_at: self.stopped_at,
            wall_clock_elapsed: elapsed,
            remaining_wall_clock: self.deadline.since(&end),
            active_work_duration: Duration { nanos: elapsed.nanos - paused.nanos },
            paused_duration: paused,
            current_pause_duration: if effective_state == EffectiveState::Paused {
                Some(since_mark)
            } else {
                None
            },
            metadata: self.metadata,
            checkpoints: self.checkpoints,
            current_plan: self.current_plan,
            plan_revisions: self.plan_revisions,
        }
    }
}

/// The sessions of a log are those that have events in it, each once, and each is consistent.
pub proof fn lemma_sessions(events: Seq<StoredEventView>)
    ensures
        sessions(events).no_duplicates(),
        forall|id: SessionId| #[trigger]
            sessions(events).contains(id) <==> replay(events, id) is Some,
        first_fault(events) is None ==> forall|id: SessionId|
            (#[trigger] replay(events, id)) is Some ==> replay(events, id)->0.consistent()
                && replay(events, id)->0.metadata.session_id == id,
    decreases events.len(),
{
    if events.len() > 0 {
        let before = events.drop_last();
        lemma_sessions(before);
        let e = events.last();
        let ids = sessions(before);
        assert forall|id: SessionId| #[trigger] sessions(events).contains(id) <==> replay(
            events,
            id,
        ) is Some by {
            assert(ids.contains(id) <==> replay(before, id) is Some);
            if !ids.contains(e.session_id) {
                let next = ids.push(e.session_id);
                if ids.contains(id) {
                    let k = choose|k: int| 0 <= k < ids.len() && ids[k] == id;
                    assert(next[k] == id);
                }
                if id == e.session_id {
                    assert(next[ids.len() as int] == id);
                }
                if next.contains(id) && id != e.session_id {
                    let k = choose|k: int| 0 <= k < next.len() && next[k] == id;
                    assert(ids[k] == id);
                }
            }
        }
        if first_fault(events) is None {
            assert(fault(replay(before, e.session_id), e) is None);
            assert forall|id: SessionId| (#[trigger] replay(events, id)) is Some implies replay(
                events,
                id,
            )->0.consistent() && replay(events, id)->0.metadata.session_id == id by {
                assert(replay(before, id) is Some ==> replay(before, id)->0.consistent());
            }
        }
    }
}

/// The position of the session `id` among `states`.
fn position(states: &Vec<SessionState>, id: SessionId) -> (res: Option<usize>)
    ensures
        res matches Some(k) ==> k < states@.len() && states@[k as int]@.metadata.session_id == id,
        res is None ==> forall|k: int|
            0 <= k < states@.len() ==> (#[trigger] states@[k])@.metadata.session_id != id,
{
    let mut k: usize = 0;
    while k < states.len()
        invariant
            k <= states.len(),
            forall|j: int|
                0 <= j < k ==> (#[trigger] states@[j])@.metadata.session_id != id,
        decreases states.len() - k,
    {
        if states[k].metadata.session_id == id {
            return Some(k);
        }
        k = k + 1;
    }
    None
}

/// The error for a log with a fault.
fn corrupt(session_id: SessionId, found: Fault) -> (res: LokinError)
    ensures
        res@ == corrupt_log((session_id, found)),
{
    LokinError::CorruptLog(
        "session ".to_owned().concat(session_id.text().as_str()).concat(found.text()),
    )
}

/// The states of the sessions of a log, as far as it has been read.
spec fn tracks(states: Seq<SessionState>, events: Seq<StoredEventView>) -> bool {
    &&& states.len() == sessions(events).len()
    &&& forall|k: int|
        0 <= k < states.len() ==> (#[trigger] states[k]).valid() && replay(
            events,
            sessions(events)[k],
        ) == Some(states[k]@)
}

/// A fault among the first events of a log is the fault of the log.
proof fn lemma_fault_is_first(events: Seq<StoredEventView>, n: int)
    requires
        0 <= n <= events.len(),
    ensures
        first_fault(events.take(n)) is Some ==> first_fault(events) == first_fault(events.take(n)),
    decreases events.len() - n,
{
    if n < events.len() {
        lemma_fault_is_first(events, n + 1);
        assert(events.take(n + 1).drop_last() =~= events.take(n));
    } else {
        assert(events.take(n) =~= events);
    }
}

/// The sessions that a log of events tells of, as they are at the instant `now`.
pub fn reconstruct_all(events: &[StoredEvent], now: Timestamp) -> (res: Result<
    Vec<SessionProjection>,
    LokinError,
>)
    ensures
        session::list_view(res) == reconstructed(session::views(events@), now@),
{
    let mut states: Vec<SessionState> = Vec::new();
    let mut i: usize = 0;
    let ghost all = session::views(events@);
    assert(all.take(0) =~= seq![]);
    while i < events.len()
        invariant
            i <= events.len(),
            all == session::views(events@),
            first_fault(all.take(i as int)) is None,
            tracks(states@, all.take(i as int)),
        decreases events.len() - i,
    {
        let stored = &events[i];
        let ghost read = all.take(i as int);
        let ghost next = all.take(i + 1);
        proof {
            assert(next.drop_last() =~= read);
            assert(next.last() == stored@);
            lemma_sessions(read);
            lemma_sessions(next);
            lemma_fault_is_first(all, i + 1);
        }
        match position(&states, stored.session_id) {
            None => {
                proof {
                    if replay(read, stored.session_id) is Some {
                        assert(sessions(read).contains(stored.session_id));
                        let k = choose|k: int|
                            0 <= k < sessions(read).len() && sessions(read)[k]
                                == stored.session_id;
                        assert(replay(read, sessions(read)[k]) == Some(states@[k]@));
                        assert(false);
                    }
                }
                match &stored.event {
                    SessionEvent::SessionStarted { goal, duration_minutes } => {
                        match stored.occurred_at.plus_minutes(*duration_minutes) {
                            None => {
                                return Err(corrupt(stored.session_id, Fault::NoDeadline));
                            },
                            Some(deadline) => {
                                let state = SessionState::started(
                                    stored.session_id,
                                    goal,
                                    *duration_minutes,
                                    stored.occurred_at,
                                    deadline,
                                );
                                let ghost old_states = states@;
                                states.push(state);
                                proof {
                                    assert(!sessions(read).contains(stored.session_id));
                                    assert(after(replay(read, stored.session_id), stored@)
                                        == state@);
                                    assert forall|k: int| 0 <= k < states@.len() implies (
                                    #[trigger] states@[k]).valid() && replay(
                                        next,
                                        sessions(next)[k],
                                    ) == Some(states@[k]@) by {
                                        if k < old_states.len() {
                                            assert(states@[k] == old_states[k]);
                                            assert(sessions(read).contains(sessions(read)[k]));
                                        }
                                    }
                                }
                            },
                        }
                    },
                    _ => {
                        return Err(corrupt(stored.session_id, Fault::MissingStart));
                    },
                }
            },
            Some(k) => {
                proof {
                    assert(sessions(read).contains(sessions(read)[k as int]));
                    assert(replay(read, sessions(read)[k as int]) == Some(states@[k as int]@));
                    assert(sessions(read)[k as int] == stored.session_id);
                }
                match states[k].fault(&stored.event) {
                    Some(found) => {
                        assert(fault(Some(states@[k as int]@), stored@) == Some(found));
                        return Err(corrupt(stored.session_id, found));
                    },
                    None => {
                        let ghost old_states = states@;
                        assert(fault(Some(states@[k as int]@), stored@) is None);
                        let mut state = states.remove(k);
                        state.apply(stored.occurred_at, &stored.event);
                        states.insert(k, state);
                        proof {
                            assert(after(Some(old_states[k as int]@), stored@) == state@);
                            assert(sessions(next) == sessions(read));
                            assert forall|j: int| 0 <= j < states@.len() implies (
                            #[trigger] states@[j]).valid() && replay(next, sessions(next)[j])
                                == Some(states@[j]@) by {
                                if j != k {
                                    assert(states@[j] == old_states[j]);
                                    assert(sessions(read)[j] != sessions(read)[k as int]);
                                }
                            }
                        }
                    },
                }
            },
        }
        i = i + 1;
    }
    assert(all.take(i as int) =~= all);
    let mut found: Vec<SessionProjection> = Vec::new();
    let ghost kept = states@;
    while states.len() > 0
        invariant
            first_fault(all) is None,
            tracks(kept, all),
            states@.len() + found@.len() == kept.len(),
            forall|k: int| 0 <= k < states@.len() ==> states@[k] == kept[found@.len() + k],
            forall|k: int|
                0 <= k < found@.len() ==> (#[trigger] found@[k])@ == projections(all, now@)[k],
        decreases states.len(),
    {
        let ghost n = found@.len() as int;
        assert(kept[n].valid());
        let state = states.remove(0);
        assert(replay(all, sessions(all)[n]) == Some(state@));
        found.push(state.project(now));
    }
    assert(session::views(found@) =~= projections(all, now@));
    Ok(found)
}

/// The events of one session, in the order of the log.
pub open spec fn story(events: Seq<StoredEventView>, id: SessionId) -> Seq<StoredEventView> {
    events.filter(|e: StoredEventView| e.session_id == id)
}

/// The event records a plan, the first one of its session or another.
pub open spec fn records_plan(e: StoredEventView) -> bool {
    e.event is PlanCreated || e.event is PlanRevised
}

/// The snapshot that an event holds which records a plan.
pub open spec fn snapshot_in(e: StoredEventView) -> PlanRevisionView {
    match e.event {
        EventView::PlanCreated { plan, source } => PlanRevisionView {
            occurred_at: e.occurred_at,
            created: true,
            plan,
            source,
        },
        _ => PlanRevisionView {
            occurred_at: e.occurred_at,
            created: false,
            plan: e.event->PlanRevised_plan,
            source: e.event->PlanRevised_source,
        },
    }
}

/// Among some events, the last that pauses or resumes is one that pauses.
pub open spec fn left_paused(events: Seq<StoredEventView>) -> bool {
    exists|i: int|
        0 <= i < events.len() && (#[trigger] events[i]).event is SessionPaused && forall|j: int|
            i < j < events.len() ==> !((#[trigger] events[j]).event is SessionResumed)
}

/// One more event at the end.
proof fn lemma_left_paused(events: Seq<StoredEventView>, e: StoredEventView)
    ensures
        left_paused(events.push(e)) <==> e.event is SessionPaused || !(e.event is SessionResumed)
            && left_paused(events),
{
    let all = events.push(e);
    let n = events.len() as int;
    if left_paused(all) {
        let i = choose|i: int|
            0 <= i < all.len() && (#[trigger] all[i]).event is SessionPaused && forall|j: int|
                i < j < all.len() ==> !((#[trigger] all[j]).event is SessionResumed);
        if i < n {
            assert(!(all[n].event is SessionResumed));
            assert(events[i].event is SessionPaused);
            assert forall|j: int| i < j < events.len() implies !((
            #[trigger] events[j]).event is SessionResumed) by {
                assert(all[j] == events[j]);
            }
        }
    }
    if e.event is SessionPaused {
        assert(all[n].event is SessionPaused);
    } else if !(e.event is SessionResumed) && left_paused(events) {
        let i = choose|i: int|
            0 <= i < events.len() && (#[trigger] events[i]).event is SessionPaused && forall|j: int|
                i < j < events.len() ==> !((#[trigger] events[j]).event is SessionResumed);
        assert(all[i].event is SessionPaused);
        assert forall|j: int| i < j < all.len() implies !((
        #[trigger] all[j]).event is SessionResumed) by {
            if j < n {
                assert(all[j] == events[j]);
            }
        }
    }
}

/// A session is what its own events say, and nothing else. Its first event is its start, which says
/// what its goal and its budget are and when it began. Its checkpoints are the notes among its
/// events, and its snapshots the plans, all of them and in their order; its plan is the last of
/// these. It was stopped if its last event says so. It is paused if the last of its pauses was not
/// followed by its resuming.
pub proof fn a_session_is_what_its_events_say(events: Seq<StoredEventView>, id: SessionId)
    requires
        first_fault(events) is None,
    ensures
        replay(events, id) is Some <==> story(events, id).len() > 0,
        replay(events, id) matches Some(s) ==> {
            let own = story(events, id);
            &&& own[0].event is SessionStarted
            &&& s.metadata == MetadataView {
                session_id: id,
                goal: own[0].event->SessionStarted_goal,
                duration_minutes: own[0].event->SessionStarted_duration_minutes,
                start_time: own[0].occurred_at,
            }
            &&& s.checkpoints == own.filter(
                |e: StoredEventView| e.event is CheckpointAdded,
            ).map_values(
                |e: StoredEventView|
                    CheckpointView {
                        occurred_at: e.occurred_at,
                        note: e.event->CheckpointAdded_note,
                    },
            )
            &&& s.plan_revisions == own.filter(|e: StoredEventView| records_plan(e)).map_values(
                |e: StoredEventView| snapshot_in(e),
            )
            &&& s.current_plan == if s.plan_revisions.len() == 0 {
                None
            } else {
                Some(s.plan_revisions.last().plan)
            }
            &&& s.stopped_at == if own.last().event is SessionStopped {
                Some(own.last().occurred_at)
            } else {
                None
            }
            &&& s.paused <==> left_paused(own)
        },
    decreases events.len(),
{
    reveal(Seq::filter);
    if events.len() > 0 {
        let before = events.drop_last();
        let e = events.last();
        a_session_is_what_its_events_say(before, id);
        let notes = |e: StoredEventView| e.event is CheckpointAdded;
        let note_of = |e: StoredEventView|
            CheckpointView { occurred_at: e.occurred_at, note: e.event->CheckpointAdded_note };
        let plans = |e: StoredEventView| records_plan(e);
        let snapshot_of = |e: StoredEventView| snapshot_in(e);
        if e.session_id == id {
            let old_own = story(before, id);
            let own = story(events, id);
            assert(own == old_own.push(e));
            assert(own.drop_last() =~= old_own);
            lemma_left_paused(old_own, e);
            assert(fault(replay(before, id), e) is None);
            let s = replay(events, id)->0;
            assert(own.filter(notes) == if notes(e) {
                old_own.filter(notes).push(e)
            } else {
                old_own.filter(notes)
            });
            assert(own.filter(plans) == if plans(e) {
                old_own.filter(plans).push(e)
            } else {
                old_own.filter(plans)
            });
            if replay(before, id) is None {
                assert(old_own =~= seq![]);
                assert(old_own.filter(notes) =~= seq![]);
                assert(old_own.filter(plans) =~= seq![]);
                assert(own[0] == e);
                assert(!left_paused(old_own));
                assert(s.checkpoints =~= own.filter(notes).map_values(note_of));
                assert(s.plan_revisions =~= own.filter(plans).map_values(snapshot_of));
            } else {
                assert(own[0] == old_own[0]);
                assert(s.checkpoints =~= own.filter(notes).map_values(note_of));
                assert(s.plan_revisions =~= own.filter(plans).map_values(snapshot_of));
            }
        }
    }
}

/// The sessions of a log are those that it starts, in the order of their starts.
pub proof fn the_sessions_are_those_that_were_started(events: Seq<StoredEventView>)
    requires
        first_fault(events) is None,
    ensures
        sessions(events) == events.filter(
            |e: StoredEventView| e.event is SessionStarted,
        ).map_values(|e: StoredEventView| e.session_id),
    decreases events.len(),
{
    reveal(Seq::filter);
    let starts = |e: StoredEventView| e.event is SessionStarted;
    let name = |e: StoredEventView| e.session_id;
    if events.len() > 0 {
        let before = events.drop_last();
        let e = events.last();
        the_sessions_are_those_that_were_started(before);
        lemma_sessions(before);
        assert(sessions(before).contains(e.session_id) <==> replay(before, e.session_id) is Some);
        assert(fault(replay(before, e.session_id), e) is None);
        assert(sessions(events) =~= events.filter(starts).map_values(name));
    } else {
        assert(sessions(events) =~= events.filter(starts).map_values(name));
    }
}

/// A log can be read exactly if every event of it can follow those before it: a start if its
/// session has none yet and a deadline within the calendar; any other event if its session has
/// started and was not stopped, and besides a pause if it is not paused, resuming if it is, a first
/// plan if it has none, and another plan if it has one.
pub proof fn an_event_follows_or_does_not(events: Seq<StoredEventView>, e: StoredEventView)
    requires
        first_fault(events) is None,
    ensures
        ({
            let own = story(events, e.session_id);
            let planned = own.filter(|e: StoredEventView| records_plan(e)).len() > 0;
            first_fault(events.push(e)) is None <==> match e.event {
                EventView::SessionStarted { goal, duration_minutes } => own.len() == 0
                    && time::in_calendar(e.occurred_at.nanos + duration_minutes * 60_000_000_000),
                _ => {
                    &&& own.len() > 0
                    &&& !(own.last().event is SessionStopped)
                    &&& e.event is SessionPaused ==> !left_paused(own)
                    &&& e.event is SessionResumed ==> left_paused(own)
                    &&& e.event is PlanCreated ==> !planned
                    &&& e.event is PlanRevised ==> planned
                },
            }
        }),
{
    assert(events.push(e).drop_last() =~= events);
    a_session_is_what_its_events_say(events, e.session_id);
}

/// The clock of a session has not been read after the last of its events.
proof fn lemma_mark(events: Seq<StoredEventView>, id: SessionId, t: int)
    requires
        first_fault(events) is None,
        replay(events, id) is Some,
        forall|i: int|
            0 <= i < events.len() && (#[trigger] events[i]).session_id == id
                ==> events[i].occurred_at.nanos <= t,
    ensures
        replay(events, id)->0.mark <= t,
    decreases events.len(),
{
    let before = events.drop_last();
    let e = events.last();
    assert forall|i: int| 0 <= i < before.len() && (#[trigger] before[i]).session_id
        == id implies before[i].occurred_at.nanos <= t by {
        assert(before[i] == events[i]);
    }
    if e.session_id == id {
        assert(e == events[events.len() - 1]);
        assert(fault(replay(before, id), e) is None);
    }
    if replay(before, id) is Some {
        lemma_mark(before, id, t);
    }
}

/// How the times of a session grow. Until its deadline, all time that passes counts against it: as
/// much has elapsed as has passed since its start, and the rest is left. While it runs, that time
/// is work, and while it is paused, that time is pause. At its deadline all of it has elapsed, and
/// its times stand still from then on.
pub proof fn time_counts_as_work_or_as_pause(
    events: Seq<StoredEventView>,
    id: SessionId,
    now: Instant,
    later: Instant,
)
    requires
        first_fault(events) is None,
        replay(events, id) matches Some(s) && s.stopped_at is None,
        forall|i: int|
            0 <= i < events.len() && (#[trigger] events[i]).session_id == id
                ==> events[i].occurred_at.nanos <= now.nanos,
        now.nanos <= later.nanos,
    ensures
        ({
            let s = replay(events, id)->0;
            let p = projected(s, now);
            let q = projected(s, later);
            let start = s.metadata.start_time.nanos;
            let end = start + s.metadata.duration_minutes * 60_000_000_000;
            let passed = if later.nanos <= end {
                later.nanos - now.nanos
            } else if now.nanos <= end {
                end - now.nanos
            } else {
                0
            };
            &&& p.wall_clock_elapsed == if now.nanos <= end {
                now.nanos - start
            } else {
                end - start
            }
            &&& p.remaining_wall_clock == end - start - p.wall_clock_elapsed
            &&& q.wall_clock_elapsed == p.wall_clock_elapsed + passed
            &&& q.active_work_duration == p.active_work_duration + if s.paused {
                0
            } else {
                passed
            }
            &&& q.paused_duration == p.paused_duration + if s.paused {
                passed
            } else {
                0
            }
            &&& p.current_pause_duration is Some <==> s.paused && now.nanos < end
            &&& p.current_pause_duration is Some && q.current_pause_duration is Some
                ==> q.current_pause_duration->0 == p.current_pause_duration->0 + passed
        }),
{
    lemma_mark(events, id, now.nanos);
    lemma_sessions(events);
}

/// What state a session is in: stopped, once it was stopped; else completed, once its deadline has
/// come; else paused or running. Nothing about a stopped session depends on the time.
pub proof fn what_state_a_session_is_in(s: StateView, now: Instant, later: Instant)
    ensures
        ({
            let p = projected(s, now);
            let end = s.metadata.start_time.nanos + s.metadata.duration_minutes * 60_000_000_000;
            &&& p.effective_state == EffectiveState::Stopped <==> s.stopped_at is Some
            &&& p.effective_state == EffectiveState::Completed <==> s.stopped_at is None && end
                <= now.nanos
            &&& p.effective_state == EffectiveState::Paused <==> s.stopped_at is None && now.nanos
                < end && s.paused
            &&& p.effective_state.active() <==> s.stopped_at is None && now.nanos < end
            &&& p.stopped_at == s.stopped_at
            &&& p.metadata == s.metadata
            &&& p.checkpoints == s.checkpoints
            &&& p.current_plan == s.current_plan
            &&& p.plan_revisions == s.plan_revisions
            &&& s.stopped_at is Some ==> projected(s, later) == p
        }),
{
}

/// Every session of a log is told of once, in the order of the sessions, and as what its events say.
pub proof fn every_session_is_told_of(events: Seq<StoredEventView>, now: Instant)
    requires
        first_fault(events) is None,
    ensures
        reconstructed(events, now) == Ok::<_, ErrorView>(projections(events, now)),
        projections(events, now).map_values(|p: ProjectionView| p.metadata.session_id) == sessions(
            events,
        ),
        forall|k: int|
            0 <= k < sessions(events).len() ==> replay(events, sessions(events)[k]) is Some
                && #[trigger] projections(events, now)[k] == projected(
                replay(events, sessions(events)[k])->0,
                now,
            ),
{
    lemma_sessions(events);
    assert forall|k: int| 0 <= k < sessions(events).len() implies replay(
        events,
        #[trigger] sessions(events)[k],
    ) is Some && replay(events, sessions(events)[k])->0.metadata.session_id == sessions(
        events,
    )[k] by {
        assert(sessions(events).contains(sessions(events)[k]));
    }
    assert(projections(events, now).map_values(|p: ProjectionView| p.metadata.session_id)
        =~= sessions(events));
}

/// What is told of a log that cannot be read: the first event that cannot follow those before it,
/// by the session that it belongs to and by what stands against it, whatever comes behind it.
pub proof fn what_is_said_of_a_log_with_a_fault(
    events: Seq<StoredEventView>,
    e: StoredEventView,
    more: Seq<StoredEventView>,
    now: Instant,
)
    requires
        first_fault(events) is None,
        first_fault(events.push(e)) is Some,
    ensures
        reconstructed(events.push(e) + more, now) == Err::<Seq<ProjectionView>, _>(
            ErrorView::CorruptLog(
                "session "@ + session::hyphenated(e.session_id.value) + ({
                    let own = story(events, e.session_id);
                    if own.len() == 0 {
                        if e.event is SessionStarted {
                            " has a deadline outside the calendar"@
                        } else {
                            " has an event before its start"@
                        }
                    } else if e.event is SessionStarted {
                        " starts more than once"@
                    } else if own.last().event is SessionStopped {
                        " has an event after its stop"@
                    } else if e.event is SessionPaused {
                        " is paused while it is paused"@
                    } else if e.event is SessionResumed {
                        " is resumed while it is running"@
                    } else if e.event is PlanCreated {
                        " creates a plan while it has one"@
                    } else {
                        " revises a plan while it has none"@
                    }
                }),
            ),
        ),
{
    let seen = events.push(e);
    let all = seen + more;
    assert(seen.drop_last() =~= events);
    assert(all.take(seen.len() as int) =~= seen);
    lemma_fault_is_first(all, seen.len() as int);
    a_session_is_what_its_events_say(events, e.session_id);
}

} // verus!
