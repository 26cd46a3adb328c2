//! What a session is made of: its plan, its events, and what they add up to.

use vstd::prelude::*;

use crate::error::{ErrorView, LokinError};
use crate::text;
use crate::time;
use crate::time::{Duration, Instant, Timestamp};

verus! {

/// The version that every event of this library is stored under.
pub const SCHEMA_VERSION: u16 = 1;

/// The identity of a session: a UUID as a number.
#[derive(Clone, Copy, Debug, PartialEq, Eq, Structural)]
pub struct SessionId {
    /// The 128 bits of the UUID, the first one the most significant.
    pub value: u128,
}

/// A hexadecimal digit in lower case.
pub open spec fn hex_digit(n: nat) -> char {
    if n < 10 {
        (48 + n) as char
    } else {
        (87 + n) as char
    }
}

/// The last `count` hexadecimal digits of `value`.
pub open spec fn hex(value: nat, count: nat) -> Seq<char>
    decreases count,
{
    if count == 0 {
        seq![]
    } else {
        hex(value / 16, (count - 1) as nat).push(hex_digit(value % 16))
    }
}

/// A UUID in its usual form: 32 hexadecimal digits in groups of 8, 4, 4, 4 and 12.
pub open spec fn hyphenated(value: u128) -> Seq<char> {
    let digits = hex(value as nat, 32);
    digits.subrange(0, 8) + "-"@ + digits.subrange(8, 12) + "-"@ + digits.subrange(12, 16) + "-"@
        + digits.subrange(16, 20) + "-"@ + digits.subrange(20, 32)
}

/// How many numbers `count` hexadecimal digits can tell apart.
spec fn sixteen_to_the(count: nat) -> nat
    decreases count,
{
    if count == 0 {
        1
    } else {
        16 * sixteen_to_the((count - 1) as nat)
    }
}

/// A hexadecimal digit in lower case, or a hyphen.
pub open spec fn in_a_name(c: char) -> bool {
    ||| '0' <= c <= '9'
    ||| 'a' <= c <= 'f'
    ||| c == '-'
}

/// `hex` gives as many digits as it is asked for, and they tell two numbers apart that are small
/// enough.
proof fn lemma_hex(a: nat, b: nat, count: nat)
    ensures
        hex(a, count).len() == count,
        forall|i: int| 0 <= i < count ==> in_a_name(#[trigger] hex(a, count)[i]),
        a < sixteen_to_the(count) && b < sixteen_to_the(count) && hex(a, count) == hex(b, count)
            ==> a == b,
    decreases count,
{
    if count > 0 {
        let fewer = (count - 1) as nat;
        lemma_hex(a / 16, b / 16, fewer);
        lemma_hex(b / 16, a / 16, fewer);
        if hex(a, count) == hex(b, count) {
            assert(hex(a, count).drop_last() =~= hex(a / 16, fewer));
            assert(hex(b, count).drop_last() =~= hex(b / 16, fewer));
            assert(hex(a, count).last() == hex(b, count).last());
            assert(hex_digit(a % 16) == hex_digit(b % 16));
        }
    }
}

/// The name of a session has 36 characters, all of them hexadecimal digits in lower case or
/// hyphens.
pub proof fn the_form_of_a_name(value: u128)
    ensures
        hyphenated(value).len() == 36,
        forall|i: int| 0 <= i < 36 ==> in_a_name(#[trigger] hyphenated(value)[i]),
{
    reveal_strlit("-");
    lemma_hex(value as nat, value as nat, 32);
}

/// No two sessions have the same name.
pub proof fn names_are_distinct(a: u128, b: u128)
    requires
        hyphenated(a) == hyphenated(b),
    ensures
        a == b,
{
    reveal_strlit("-");
    lemma_hex(a as nat, b as nat, 32);
    lemma_hex(b as nat, a as nat, 32);
    let (x, y) = (hex(a as nat, 32), hex(b as nat, 32));
    let (s, t) = (hyphenated(a), hyphenated(b));
    assert forall|i: int| 0 <= i < 32 implies x[i] == y[i] by {
        let at = if i < 8 {
            i
        } else if i < 12 {
            i + 1
        } else if i < 16 {
            i + 2
        } else if i < 20 {
            i + 3
        } else {
            i + 4
        };
        assert(s[at] == x[i] && t[at] == y[i]);
    }
    assert(x =~= y);
    assert(sixteen_to_the(32) == 0x1_0000_0000_0000_0000_0000_0000_0000_0000) by {
        reveal_with_fuel(sixteen_to_the, 33);
    }
}

/// Calls `uuid::Uuid::from_u128` and the `to_string` of its `Display`: 32 hexadecimal digits in
/// lower case, the most significant first, with hyphens after the first 8, 12, 16 and 20 of them.
#[verifier::external_body]
fn uuid_text(value: u128) -> (res: String)
    ensures
        res@ == hyphenated(value),
{
    uuid::Uuid::from_u128(value).to_string()
}

/// The bits of a UUID that tell its version and its variant say: version 4, of RFC 4122.
pub open spec fn is_version_4(value: u128) -> bool {
    value & 0xf000_c000_0000_0000_0000 == 0x4000_8000_0000_0000_0000
}

/// Calls `uuid::Uuid::new_v4`: 122 random bits, with the bits for version 4 and for the variant of
/// RFC 4122 in their places. Nothing else holds of every result. Where the system has no random
/// bytes to give, the call panics.
#[verifier::external_body]
fn uuid_new_v4() -> (res: u128)
    ensures
        is_version_4(res),
{
    uuid::Uuid::new_v4().as_u128()
}

impl SessionId {
    /// A fresh identity, drawn at random.
    pub fn random() -> (res: SessionId)
        ensures
            is_version_4(res.value),
    {
        SessionId { value: uuid_new_v4() }
    }

    /// The identity as the user sees it.
    pub fn text(&self) -> (res: String)
        ensures
            res@ == hyphenated(self.value),
    {
        uuid_text(self.value)
    }
}

/// How far the work on a plan item has come.
#[derive(Clone, Copy, Debug, PartialEq, Eq, Structural)]
pub enum PlanItemStatus {
    Pending,
    Active,
    Completed,
    Skipped,
}

impl PlanItemStatus {
    /// The word for the status.
    pub open spec fn spec_name(self) -> Seq<char> {
        match self {
            PlanItemStatus::Pending => "pending"@,
            PlanItemStatus::Active => "active"@,
            PlanItemStatus::Completed => "completed"@,
            PlanItemStatus::Skipped => "skipped"@,
        }
    }

    /// The word for the status.
    pub fn name(&self) -> (res: &'static str)
        ensures
            res@ == self.spec_name(),
    {
        match self {
            PlanItemStatus::Pending => "pending",
            PlanItemStatus::Active => "active",
            PlanItemStatus::Completed => "completed",
            PlanItemStatus::Skipped => "skipped",
        }
    }

    /// The status that a word stands for.
    pub fn parse(value: &str) -> (res: Result<PlanItemStatus, LokinError>)
        ensures
            match res {
                Ok(status) => parsed_status(value@) == Ok::<_, ErrorView>(status),
                Err(e) => parsed_status(value@) == Err::<PlanItemStatus, _>(e@),
            },
    {
        if text::same_text(value, "pending") {
            Ok(PlanItemStatus::Pending)
        } else if text::same_text(value, "active") {
            Ok(PlanItemStatus::Active)
        } else if text::same_text(value, "completed") {
            Ok(PlanItemStatus::Completed)
        } else if text::same_text(value, "skipped") {
            Ok(PlanItemStatus::Skipped)
        } else {
            Err(
                LokinError::InvalidInput(
                    "Unknown plan item status '".to_owned().concat(value).concat("'."),
                ),
            )
        }
    }
}

/// The status that a word stands for.
pub open spec fn parsed_status(value: Seq<char>) -> Result<PlanItemStatus, ErrorView> {
    if value == PlanItemStatus::Pending.spec_name() {
        Ok(PlanItemStatus::Pending)
    } else if value == PlanItemStatus::Active.spec_name() {
        Ok(PlanItemStatus::Active)
    } else if value == PlanItemStatus::Completed.spec_name() {
        Ok(PlanItemStatus::Completed)
    } else if value == PlanItemStatus::Skipped.spec_name() {
        Ok(PlanItemStatus::Skipped)
    } else {
        Err(ErrorView::InvalidInput("Unknown plan item status '"@ + value + "'."@))
    }
}

/// A status is read back from its word.
pub proof fn status_survives_its_name(status: PlanItemStatus)
    ensures
        parsed_status(status.spec_name()) == Ok::<_, ErrorView>(status),
{
    reveal_strlit("pending");
    reveal_strlit("active");
    reveal_strlit("completed");
    reveal_strlit("skipped");
    let pending = PlanItemStatus::Pending.spec_name();
    let active = PlanItemStatus::Active.spec_name();
    let completed = PlanItemStatus::Completed.spec_name();
    let skipped = PlanItemStatus::Skipped.spec_name();
    assert(pending.len() == 7 && active.len() == 6 && completed.len() == 9 && skipped.len() == 7);
    assert(pending[0] == 'p' && skipped[0] == 's');
}

/// One step of a plan.
#[derive(Debug, PartialEq, Eq)]
pub struct PlanItem {
    pub description: String,
    pub duration_minutes: u16,
    pub status: PlanItemStatus,
}

/// The model of [`PlanItem`].
#[verifier::ext_equal]
pub struct PlanItemView {
    pub description: Seq<char>,
    pub duration_minutes: u16,
    pub status: PlanItemStatus,
}

impl View for PlanItem {
    type V = PlanItemView;

    open spec fn view(&self) -> PlanItemView {
        PlanItemView {
            description: self.description@,
            duration_minutes: self.duration_minutes,
            status: self.status,
        }
    }
}

impl Clone for PlanItem {
    fn clone(&self) -> (res: PlanItem)
        ensures
            res@ == self@,
    {
        PlanItem {
            description: self.description.clone(),
            duration_minutes: self.duration_minutes,
            status: self.status,
        }
    }
}

impl PlanItem {
    fn same(&self, other: &PlanItem) -> (res: bool)
        ensures
            res == (self@ == other@),
    {
        self.description == other.description && self.duration_minutes == other.duration_minutes
            && self.status == other.status
    }
}

/// The models of a sequence of values.
pub open spec fn views<T: View>(values: Seq<T>) -> Seq<T::V> {
    Seq::new(values.len(), |i: int| values[i]@)
}

/// The model of an optional value.
pub open spec fn optional_view<T: View>(value: Option<T>) -> Option<T::V> {
    match value {
        Some(value) => Some(value@),
        None => None,
    }
}

/// The model of a list of values that may have failed to come.
pub open spec fn list_view<T: View>(res: Result<Vec<T>, LokinError>) -> Result<
    Seq<T::V>,
    ErrorView,
> {
    match res {
        Ok(values) => Ok(views(values@)),
        Err(e) => Err(e@),
    }
}

/// The steps that a session is to be spent on. Its model is the sequence of the steps' models.
#[derive(Debug, PartialEq, Eq)]
pub struct Plan {
    pub items: Vec<PlanItem>,
}

impl View for Plan {
    type V = Seq<PlanItemView>;

    open spec fn view(&self) -> Seq<PlanItemView> {
        views(self.items@)
    }
}

impl Clone for Plan {
    fn clone(&self) -> (res: Plan)
        ensures
            res@ == self@,
    {
        let mut items: Vec<PlanItem> = Vec::new();
        let mut i: usize = 0;
        while i < self.items.len()
            invariant
                i <= self.items.len(),
                items.len() == i,
                forall|j: int| 0 <= j < i ==> items@[j]@ == #[trigger] self.items@[j]@,
            decreases self.items.len() - i,
        {
            items.push(self.items[i].clone());
            i = i + 1;
        }
        let res = Plan { items };
        assert(res@ =~= self@);
        res
    }
}

/// The minutes that the steps of a plan take together.
pub open spec fn total_minutes(plan: Seq<PlanItemView>) -> nat
    decreases plan.len(),
{
    if plan.len() == 0 {
        0
    } else {
        total_minutes(plan.drop_last()) + plan.last().duration_minutes as nat
    }
}

/// The steps of a plan that are done.
pub open spec fn completed_items(plan: Seq<PlanItemView>) -> nat
    decreases plan.len(),
{
    if plan.len() == 0 {
        0
    } else {
        completed_items(plan.drop_last()) + if plan.last().status == PlanItemStatus::Completed {
            1nat
        } else {
            0nat
        }
    }
}

impl Plan {
    /// The minutes that the steps take together.
    pub fn total_minutes(&self) -> (res: u128)
        ensures
            res == total_minutes(self@),
            res < 0x1_0000_0000_0000_0000_0000,
    {
        let mut total: u128 = 0;
        let mut i: usize = 0;
        assert(self@.take(0) =~= seq![]);
        while i < self.items.len()
            invariant
                i <= self.items.len(),
                total <= 65_535 * i,
                total == total_minutes(self@.take(i as int)),
            decreases self.items.len() - i,
        {
            assert(self@.take(i + 1).drop_last() =~= self@.take(i as int));
            total = total + self.items[i].duration_minutes as u128;
            i = i + 1;
        }
        assert(self@.take(i as int) =~= self@);
        total
    }

    /// The number of steps that are done.
    pub fn completed_items(&self) -> (res: usize)
        ensures
            res == completed_items(self@),
            res <= self.items@.len(),
    {
        let mut count: usize = 0;
        let mut i: usize = 0;
        assert(self@.take(0) =~= seq![]);
        while i < self.items.len()
            invariant
                i <= self.items.len(),
                count <= i,
                count == completed_items(self@.take(i as int)),
            decreases self.items.len() - i,
        {
            assert(self@.take(i + 1).drop_last() =~= self@.take(i as int));
            if self.items[i].status == PlanItemStatus::Completed {
                count = count + 1;
            }
            i = i + 1;
        }
        assert(self@.take(i as int) =~= self@);
        count
    }

    /// Whether two plans have the same steps.
    pub fn same(&self, other: &Plan) -> (res: bool)
        ensures
            res == (self@ == other@),
    {
        if self.items.len() != other.items.len() {
            assert(self@.len() != other@.len());
            return false;
        }
        let mut i: usize = 0;
        while i < self.items.len()
            invariant
                i <= self.items.len(),
                self.items.len() == other.items.len(),
                forall|j: int| 0 <= j < i ==> #[trigger] self.items@[j]@ == other.items@[j]@,
            decreases self.items.len() - i,
        {
            if !self.items[i].same(&other.items[i]) {
                assert(self@[i as int] != other@[i as int]);
                return false;
            }
            i = i + 1;
        }
        assert(self@ =~= other@);
        true
    }
}

/// Where a plan came from.
#[derive(Debug, PartialEq, Eq)]
pub enum PlanSource {
    /// The user wrote it.
    Manual,
    /// A language model proposed it.
    Llm { provider: String, model: String },
}

/// The model of [`PlanSource`].
pub enum PlanSourceView {
    Manual,
    Llm { provider: Seq<char>, model: Seq<char> },
}

impl View for PlanSource {
    type V = PlanSourceView;

    open spec fn view(&self) -> PlanSourceView {
        match self {
            PlanSource::Manual => PlanSourceView::Manual,
            PlanSource::Llm { provider, model } => PlanSourceView::Llm {
                provider: provider@,
                model: model@,
            },
        }
    }
}

impl Clone for PlanSource {
    fn clone(&self) -> (res: PlanSource)
        ensures
            res@ == self@,
    {
        match self {
            PlanSource::Manual => PlanSource::Manual,
            PlanSource::Llm { provider, model } => PlanSource::Llm {
                provider: provider.clone(),
                model: model.clone(),
            },
        }
    }
}

impl PlanSourceView {
    /// The source as the user sees it.
    pub open spec fn text(self) -> Seq<char> {
        match self {
            PlanSourceView::Manual => "manual"@,
            PlanSourceView::Llm { provider, model } => "llm ("@ + provider + "/"@ + model + ")"@,
        }
    }
}

impl PlanSource {
    /// The source as the user sees it.
    pub fn text(&self) -> (res: String)
        ensures
            res@ == self@.text(),
    {
        match self {
            PlanSource::Manual => "manual".to_owned(),
            PlanSource::Llm { provider, model } => "llm (".to_owned().concat(
                provider.as_str(),
            ).concat("/").concat(model.as_str()).concat(")"),
        }
    }

    fn same(&self, other: &PlanSource) -> (res: bool)
        ensures
            res == (self@ == other@),
    {
        match self {
            PlanSource::Manual => match other {
                PlanSource::Manual => true,
                PlanSource::Llm { .. } => false,
            },
            PlanSource::Llm { provider, model } => match other {
                PlanSource::Manual => false,
                PlanSource::Llm { provider: other_provider, model: other_model } => {
                    *provider == *other_provider && *model == *other_model
                },
            },
        }
    }
}

/// Something that happened to a session.
#[derive(Debug, PartialEq, Eq)]
pub enum SessionEvent {
    SessionStarted { goal: String, duration_minutes: u16 },
    SessionPaused,
    SessionResumed,
    CheckpointAdded { note: String },
    PlanCreated { plan: Plan, source: PlanSource },
    PlanRevised { plan: Plan, source: PlanSource },
    SessionStopped,
}

/// The model of [`SessionEvent`].
pub enum EventView {
    SessionStarted { goal: Seq<char>, duration_minutes: u16 },
    SessionPaused,
    SessionResumed,
    CheckpointAdded { note: Seq<char> },
    PlanCreated { plan: Seq<PlanItemView>, source: PlanSourceView },
    PlanRevised { plan: Seq<PlanItemView>, source: PlanSourceView },
    SessionStopped,
}

impl View for SessionEvent {
    type V = EventView;

    open spec fn view(&self) -> EventView {
        match self {
            SessionEvent::SessionStarted { goal, duration_minutes } => EventView::SessionStarted {
                goal: goal@,
                duration_minutes: *duration_minutes,
            },
            SessionEvent::SessionPaused => EventView::SessionPaused,
            SessionEvent::SessionResumed => EventView::SessionResumed,
            SessionEvent::CheckpointAdded { note } => EventView::CheckpointAdded { note: note@ },
            SessionEvent::PlanCreated { plan, source } => EventView::PlanCreated {
                plan: plan@,
                source: source@,
            },
            SessionEvent::PlanRevised { plan, source } => EventView::PlanRevised {
                plan: plan@,
                source: source@,
            },
            SessionEvent::SessionStopped => EventView::SessionStopped,
        }
    }
}

impl Clone for SessionEvent {
    fn clone(&self) -> (res: SessionEvent)
        ensures
            res@ == self@,
    {
        match self {
            SessionEvent::SessionStarted { goal, duration_minutes } =>
                SessionEvent::SessionStarted {
                goal: goal.clone(),
                duration_minutes: *duration_minutes,
            },
            SessionEvent::SessionPaused => SessionEvent::SessionPaused,
            SessionEvent::SessionResumed => SessionEvent::SessionResumed,
            SessionEvent::CheckpointAdded { note } => SessionEvent::CheckpointAdded {
                note: note.clone(),
            },
            SessionEvent::PlanCreated { plan, source } => SessionEvent::PlanCreated {
                plan: plan.clone(),
                source: source.clone(),
            },
            SessionEvent::PlanRevised { plan, source } => SessionEvent::PlanRevised {
                plan: plan.clone(),
                source: source.clone(),
            },
            SessionEvent::SessionStopped => SessionEvent::SessionStopped,
        }
    }
}

impl EventView {
    /// The name that the event is stored under.
    pub open spec fn name(self) -> Seq<char> {
        match self {
            EventView::SessionStarted { .. } => "session_started"@,
            EventView::SessionPaused => "session_paused"@,
            EventView::SessionResumed => "session_resumed"@,
            EventView::CheckpointAdded { .. } => "checkpoint_added"@,
            EventView::PlanCreated { .. } => "plan_created"@,
            EventView::PlanRevised { .. } => "plan_revised"@,
            EventView::SessionStopped => "session_stopped"@,
        }
    }
}

impl SessionEvent {
    /// The name that the event is stored under.
    pub fn name(&self) -> (res: &'static str)
        ensures
            res@ == self@.name(),
    {
        match self {
            SessionEvent::SessionStarted { .. } => "session_started",
            SessionEvent::SessionPaused => "session_paused",
            SessionEvent::SessionResumed => "session_resumed",
            SessionEvent::CheckpointAdded { .. } => "checkpoint_added",
            SessionEvent::PlanCreated { .. } => "plan_created",
            SessionEvent::PlanRevised { .. } => "plan_revised",
            SessionEvent::SessionStopped => "session_stopped",
        }
    }

    fn same(&self, other: &SessionEvent) -> (res: bool)
        ensures
            res == (self@ == other@),
    {
        match (self, other) {
            (
                SessionEvent::SessionStarted { goal, duration_minutes },
                SessionEvent::SessionStarted {
                    goal: other_goal,
                    duration_minutes: other_duration,
                },
            ) => *goal == *other_goal && *duration_minutes == *other_duration,
            (SessionEvent::SessionPaused, SessionEvent::SessionPaused) => true,
            (SessionEvent::SessionResumed, SessionEvent::SessionResumed) => true,
            (
                SessionEvent::CheckpointAdded { note },
                SessionEvent::CheckpointAdded { note: other_note },
            ) => *note == *other_note,
            (
                SessionEvent::PlanCreated { plan, source },
                SessionEvent::PlanCreated { plan: other_plan, source: other_source },
            ) => plan.same(other_plan) && source.same(other_source),
            (
                SessionEvent::PlanRevised { plan, source },
                SessionEvent::PlanRevised { plan: other_plan, source: other_source },
            ) => plan.same(other_plan) && source.same(other_source),
            (SessionEvent::SessionStopped, SessionEvent::SessionStopped) => true,
            _ => false,
        }
    }
}

/// An event as the log keeps it.
#[derive(Debug, PartialEq, Eq)]
pub struct StoredEvent {
    pub schema_version: u16,
    pub session_id: SessionId,
    pub occurred_at: Timestamp,
    pub event: SessionEvent,
}

/// The model of [`StoredEvent`].
pub struct StoredEventView {
    pub schema_version: u16,
    pub session_id: SessionId,
    pub occurred_at: Instant,
    pub event: EventView,
}

impl View for StoredEvent {
    type V = StoredEventView;

    open spec fn view(&self) -> StoredEventView {
        StoredEventView {
            schema_version: self.schema_version,
            session_id: self.session_id,
            occurred_at: self.occurred_at@,
            event: self.event@,
        }
    }
}

impl Clone for StoredEvent {
    fn clone(&self) -> (res: StoredEvent)
        ensures
            res@ == self@,
    {
        StoredEvent {
            schema_version: self.schema_version,
            session_id: self.session_id,
            occurred_at: self.occurred_at,
            event: self.event.clone(),
        }
    }
}

/// An event of the present schema version.
pub open spec fn stored(session_id: SessionId, occurred_at: Instant, event: EventView) -> StoredEventView {
    StoredEventView { schema_version: SCHEMA_VERSION, session_id, occurred_at, event }
}

impl StoredEvent {
    /// An event of the present schema version.
    pub fn new(session_id: SessionId, occurred_at: Timestamp, event: SessionEvent) -> (res:
        StoredEvent)
        ensures
            res@ == stored(session_id, occurred_at@, event@),
    {
        StoredEvent { schema_version: SCHEMA_VERSION, session_id, occurred_at, event }
    }

    /// Whether two stored events are the same.
    pub fn same(&self, other: &StoredEvent) -> (res: bool)
        ensures
            res == (self@ == other@),
    {
        self.schema_version == other.schema_version && self.session_id == other.session_id
            && self.occurred_at.same(&other.occurred_at) && self.event.same(&other.event)
    }
}

/// Whether two runs of events are the same.
pub fn same_events(a: &[StoredEvent], b: &[StoredEvent]) -> (res: bool)
    ensures
        res == (views(a@) == views(b@)),
{
    if a.len() != b.len() {
        assert(views(a@).len() != views(b@).len());
        return false;
    }
    let mut i: usize = 0;
    while i < a.len()
        invariant
            i <= a.len(),
            a.len() == b.len(),
            forall|j: int| 0 <= j < i ==> #[trigger] a@[j]@ == b@[j]@,
        decreases a.len() - i,
    {
        if !a[i].same(&b[i]) {
            assert(views(a@)[i as int] != views(b@)[i as int]);
            return false;
        }
        i = i + 1;
    }
    assert(views(a@) =~= views(b@));
    true
}

/// A note on the progress of a session.
#[derive(Debug, PartialEq, Eq)]
pub struct Checkpoint {
    pub occurred_at: Timestamp,
    pub note: String,
}

/// The model of [`Checkpoint`].
pub struct CheckpointView {
    pub occurred_at: Instant,
    pub note: Seq<char>,
}

impl View for Checkpoint {
    type V = CheckpointView;

    open spec fn view(&self) -> CheckpointView {
        CheckpointView { occurred_at: self.occurred_at@, note: self.note@ }
    }
}

/// A plan as it stood from some instant on.
#[derive(Debug, PartialEq, Eq)]
pub struct PlanRevision {
    pub occurred_at: Timestamp,
    /// Whether this was the first plan of its session.
    pub created: bool,
    pub plan: Plan,
    pub source: PlanSource,
}

/// The model of [`PlanRevision`].
pub struct PlanRevisionView {
    pub occurred_at: Instant,
    pub created: bool,
    pub plan: Seq<PlanItemView>,
    pub source: PlanSourceView,
}

impl View for PlanRevision {
    type V = PlanRevisionView;

    open spec fn view(&self) -> PlanRevisionView {
        PlanRevisionView {
            occurred_at: self.occurred_at@,
            created: self.created,
            plan: self.plan@,
            source: self.source@,
        }
    }
}

/// What is settled when a session starts, and never changes afterwards.
#[derive(Debug, PartialEq, Eq)]
pub struct SessionMetadata {
    pub session_id: SessionId,
    pub goal: String,
    pub duration_minutes: u16,
    pub start_time: Timestamp,
}

/// The model of [`SessionMetadata`].
pub struct MetadataView {
    pub session_id: SessionId,
    pub goal: Seq<char>,
    pub duration_minutes: u16,
    pub start_time: Instant,
}

impl View for SessionMetadata {
    type V = MetadataView;

    open spec fn view(&self) -> MetadataView {
        MetadataView {
            session_id: self.session_id,
            goal: self.goal@,
            duration_minutes: self.duration_minutes,
            start_time: self.start_time@,
        }
    }
}

impl MetadataView {
    /// The span that the session may take, pauses and all.
    pub open spec fn budget(self) -> int {
        self.duration_minutes * time::MINUTE
    }

    /// The instant at which the session is over, come what may.
    pub open spec fn deadline(self) -> int {
        self.start_time.nanos + self.budget()
    }

    /// The instant at which the session ends.
    pub open spec fn end(self) -> Instant {
        self.start_time.plus_minutes(self.duration_minutes)
    }
}

impl SessionMetadata {
    /// The instant at which the session is over, come what may.
    pub fn deadline(&self) -> (res: Timestamp)
        requires
            time::in_calendar(self@.deadline()),
        ensures
            res@ == self@.end(),
            res@.nanos == self@.deadline(),
    {
        match self.start_time.plus_minutes(self.duration_minutes) {
            Some(deadline) => deadline,
            None => self.start_time,
        }
    }
}

/// The state of a session at some instant.
#[derive(Clone, Copy, Debug, PartialEq, Eq, Structural)]
pub enum EffectiveState {
    Running,
    Paused,
    /// The deadline has passed.
    Completed,
    /// The user ended the session.
    Stopped,
}

impl EffectiveState {
    /// The session still runs or waits: its deadline is ahead, and nobody has stopped it.
    pub open spec fn active(self) -> bool {
        self == EffectiveState::Running || self == EffectiveState::Paused
    }

    /// The word for the state.
    pub open spec fn spec_name(self) -> Seq<char> {
        match self {
            EffectiveState::Running => "Running"@,
            EffectiveState::Paused => "Paused"@,
            EffectiveState::Completed => "Completed"@,
            EffectiveState::Stopped => "Stopped"@,
        }
    }

    /// The word for the state.
    pub fn name(&self) -> (res: &'static str)
        ensures
            res@ == self.spec_name(),
    {
        match self {
            EffectiveState::Running => "Running",
            EffectiveState::Paused => "Paused",
            EffectiveState::Completed => "Completed",
            EffectiveState::Stopped => "Stopped",
        }
    }

    /// Whether the session still runs or waits.
    pub fn is_active(&self) -> (res: bool)
        ensures
            res == self.active(),
    {
        *self == EffectiveState::Running || *self == EffectiveState::Paused
    }
}

/// What the events of a session add up to at some instant.
#[derive(Debug, PartialEq, Eq)]
pub struct SessionProjection {
    pub metadata: SessionMetadata,
    pub effective_state: EffectiveState,
    pub stopped_at: Option<Timestamp>,
    /// The part of the budget that has gone by, pauses and all.
    pub wall_clock_elapsed: Duration,
    /// The part of the budget that is left.
    pub remaining_wall_clock: Duration,
    /// The part of the elapsed time that was spent running.
    pub active_work_duration: Duration,
    /// The part of the elapsed time that was spent paused.
    pub paused_duration: Duration,
    /// The length of the pause that the session is in.
    pub current_pause_duration: Option<Duration>,
    pub checkpoints: Vec<Checkpoint>,
    pub current_plan: Option<Plan>,
    pub plan_revisions: Vec<PlanRevision>,
}

/// The model of [`SessionProjection`]. Instants and spans are in nanoseconds.
pub struct ProjectionView {
    pub metadata: MetadataView,
    pub effective_state: EffectiveState,
    pub stopped_at: Option<Instant>,
    pub wall_clock_elapsed: int,
    pub remaining_wall_clock: int,
    pub active_work_duration: int,
    pub paused_duration: int,
    pub current_pause_duration: Option<int>,
    pub checkpoints: Seq<CheckpointView>,
    pub current_plan: Option<Seq<PlanItemView>>,
    pub plan_revisions: Seq<PlanRevisionView>,
}

impl View for SessionProjection {
    type V = ProjectionView;

    open spec fn view(&self) -> ProjectionView {
        ProjectionView {
            metadata: self.metadata@,
            effective_state: self.effective_state,
            stopped_at: time::optional_instant(self.stopped_at),
            wall_clock_elapsed: self.wall_clock_elapsed@,
            remaining_wall_clock: self.remaining_wall_clock@,
            active_work_duration: self.active_work_duration@,
            paused_duration: self.paused_duration@,
            current_pause_duration: time::optional_span(self.current_pause_duration),
            checkpoints: views(self.checkpoints@),
            current_plan: optional_view(self.current_plan),
            plan_revisions: views(self.plan_revisions@),
        }
    }
}

/// The first fault of a plan, item by item: a description that is blank, or no time.
pub open spec fn plan_fault(plan: Seq<PlanItemView>) -> Option<ErrorView>
    decreases plan.len(),
{
    if plan.len() == 0 {
        None
    } else if plan_fault(plan.drop_last()) is Some {
        plan_fault(plan.drop_last())
    } else if text::blank(plan.last().description) {
        Some(empty_input("Plan item description"@))
    } else if plan.last().duration_minutes == 0 {
        Some(no_duration("Plan item duration"@))
    } else {
        None
    }
}

/// Something that the user left empty.
pub open spec fn empty_input(label: Seq<char>) -> ErrorView {
    ErrorView::InvalidInput(label + " cannot be empty."@)
}

/// Something that the user gave no time.
pub open spec fn no_duration(label: Seq<char>) -> ErrorView {
    ErrorView::InvalidInput(label + " must be longer than zero minutes."@)
}

/// Rejects a text that is blank.
pub fn validate_nonempty(value: &str, label: &str) -> (res: Result<(), LokinError>)
    ensures
        res is Ok <==> !text::blank(value@),
        res matches Err(e) ==> e@ == empty_input(label@),
{
    if text::is_blank(value) {
        return Err(LokinError::InvalidInput(label.to_owned().concat(" cannot be empty.")));
    }
    Ok(())
}

/// Rejects a span of no minutes.
pub fn validate_duration(value: u16, label: &str) -> (res: Result<(), LokinError>)
    ensures
        res is Ok <==> value != 0,
        res matches Err(e) ==> e@ == no_duration(label@),
{
    if value == 0 {
        return Err(
            LokinError::InvalidInput(label.to_owned().concat(" must be longer than zero minutes.")),
        );
    }
    Ok(())
}

/// Rejects a plan with an item that says nothing or takes no time. A plan without items is fine.
pub fn validate_plan(plan: &Plan) -> (res: Result<(), LokinError>)
    ensures
        plan_fault(plan@) is None <==> res is Ok,
        res matches Err(e) ==> plan_fault(plan@) == Some(e@),
{
    let mut i: usize = 0;
    assert(plan@.take(0) =~= seq![]);
    while i < plan.items.len()
        invariant
            i <= plan.items.len(),
            plan_fault(plan@.take(i as int)) is None,
        decreases plan.items.len() - i,
    {
        proof {
            assert(plan@.take(i + 1).drop_last() =~= plan@.take(i as int));
            lemma_plan_fault_is_first(plan@, i + 1);
        }
        match validate_nonempty(plan.items[i].description.as_str(), "Plan item description") {
            Ok(()) => {},
            Err(e) => {
                return Err(e);
            },
        }
        match validate_duration(plan.items[i].duration_minutes, "Plan item duration") {
            Ok(()) => {},
            Err(e) => {
                return Err(e);
            },
        }
        i = i + 1;
    }
    assert(plan@.take(i as int) =~= plan@);
    Ok(())
}

/// A fault among the first items of a plan is the fault of the plan.
proof fn lemma_plan_fault_is_first(plan: Seq<PlanItemView>, n: int)
    requires
        0 <= n <= plan.len(),
    ensures
        plan_fault(plan.take(n)) is Some ==> plan_fault(plan) == plan_fault(plan.take(n)),
    decreases plan.len() - n,
{
    if n < plan.len() {
        lemma_plan_fault_is_first(plan, n + 1);
        assert(plan.take(n + 1).drop_last() =~= plan.take(n));
    } else {
        assert(plan.take(n) =~= plan);
    }
}

/// The minutes of a plan are the sum of the minutes of its steps, whatever their statuses.
pub proof fn a_plan_takes_as_long_as_its_steps(plan: Seq<PlanItemView>, more: Seq<PlanItemView>)
    ensures
        total_minutes(plan) == plan.fold_left(
            0int,
            |sum: int, item: PlanItemView| sum + item.duration_minutes,
        ),
        total_minutes(plan + more) == total_minutes(plan) + total_minutes(more),
        forall|item: PlanItemView|
            total_minutes(#[trigger] plan.push(item)) == total_minutes(plan)
                + item.duration_minutes,
    decreases plan.len() + more.len(),
{
    assert forall|item: PlanItemView|
        total_minutes(#[trigger] plan.push(item)) == total_minutes(plan)
            + item.duration_minutes by {
        assert(plan.push(item).drop_last() =~= plan);
    }
    if more.len() > 0 {
        a_plan_takes_as_long_as_its_steps(plan, more.drop_last());
        assert((plan + more).drop_last() =~= plan + more.drop_last());
    } else {
        assert(plan + more =~= plan);
        if plan.len() > 0 {
            a_plan_takes_as_long_as_its_steps(plan.drop_last(), more);
        }
    }
}

/// The completed steps of a plan are those with that status, and no others: none, if no step has
/// it; all, if all have it; and one more, if one more step gets it.
pub proof fn completed_steps_are_counted(plan: Seq<PlanItemView>, k: int, item: PlanItemView)
    ensures
        completed_items(plan) == plan.filter(
            |item: PlanItemView| item.status == PlanItemStatus::Completed,
        ).len(),
        completed_items(plan) <= plan.len(),
        (forall|i: int|
            0 <= i < plan.len() ==> (#[trigger] plan[i]).status != PlanItemStatus::Completed)
            <==> completed_items(plan) == 0,
        (forall|i: int|
            0 <= i < plan.len() ==> (#[trigger] plan[i]).status == PlanItemStatus::Completed)
            <==> completed_items(plan) == plan.len(),
        0 <= k < plan.len() && plan[k].status != PlanItemStatus::Completed && item.status
            == PlanItemStatus::Completed ==> completed_items(plan.update(k, item))
            == completed_items(plan) + 1,
        0 <= k < plan.len() && (plan[k].status == PlanItemStatus::Completed <==> item.status
            == PlanItemStatus::Completed) ==> completed_items(plan.update(k, item))
            == completed_items(plan),
    decreases plan.len(),
{
    reveal(Seq::filter);
    if plan.len() > 0 {
        let before = plan.drop_last();
        completed_steps_are_counted(before, k, item);
        assert forall|i: int| 0 <= i < before.len() implies before[i] == #[trigger] plan[i] by {}
        assert(plan.last() == plan[plan.len() - 1]);
        if forall|i: int|
            0 <= i < plan.len() ==> (#[trigger] plan[i]).status != PlanItemStatus::Completed {
            assert forall|i: int| 0 <= i < before.len() implies (#[trigger] before[i]).status
                != PlanItemStatus::Completed by {
                assert(before[i] == plan[i]);
            }
        }
        if forall|i: int|
            0 <= i < plan.len() ==> (#[trigger] plan[i]).status == PlanItemStatus::Completed {
            assert forall|i: int| 0 <= i < before.len() implies (#[trigger] before[i]).status
                == PlanItemStatus::Completed by {
                assert(before[i] == plan[i]);
            }
        }
        if 0 <= k < before.len() {
            assert(plan.update(k, item).drop_last() =~= before.update(k, item));
        } else if k == before.len() {
            assert(plan.update(k, item).drop_last() =~= before);
        }
    }
}

/// A plan is sound exactly if each of its steps has a description that is not blank and takes some
/// time, whatever the statuses. Otherwise its fault is that of the first step that is not sound; a
/// blank description is told before a missing duration.
pub proof fn a_plan_is_as_sound_as_its_steps(plan: Seq<PlanItemView>, k: int)
    ensures
        plan_fault(plan) is None <==> forall|i: int|
            0 <= i < plan.len() ==> !text::blank((#[trigger] plan[i]).description)
                && plan[i].duration_minutes > 0,
        0 <= k < plan.len() && (forall|i: int|
            0 <= i < k ==> !text::blank((#[trigger] plan[i]).description)
                && plan[i].duration_minutes > 0) && (text::blank(plan[k].description)
            || plan[k].duration_minutes == 0) ==> plan_fault(plan) == Some(
            ErrorView::InvalidInput(
                if text::blank(plan[k].description) {
                    "Plan item description"@ + " cannot be empty."@
                } else {
                    "Plan item duration"@ + " must be longer than zero minutes."@
                },
            ),
        ),
    decreases plan.len(),
{
    if plan.len() > 0 {
        let before = plan.drop_last();
        a_plan_is_as_sound_as_its_steps(before, k);
        let sound = |item: PlanItemView|
            !text::blank(item.description) && item.duration_minutes > 0;
        assert forall|i: int| 0 <= i < before.len() implies before[i] == #[trigger] plan[i] by {}
        if plan_fault(plan) is None {
            assert forall|i: int| 0 <= i < plan.len() implies sound(#[trigger] plan[i]) by {
                if i < before.len() {
                    assert(sound(before[i]));
                }
            }
        }
        if forall|i: int| 0 <= i < plan.len() ==> sound(#[trigger] plan[i]) {
            assert forall|i: int| 0 <= i < before.len() implies sound(#[trigger] before[i]) by {
                assert(sound(plan[i]));
            }
            assert(sound(plan[plan.len() - 1]));
        }
        if 0 <= k < plan.len() && (forall|i: int| 0 <= i < k ==> sound(#[trigger] plan[i]))
            && !sound(plan[k]) {
            assert forall|i: int| 0 <= i < k implies sound(#[trigger] before[i]) by {
                assert(sound(plan[i]));
            }
            if k == before.len() {
                assert(plan_fault(before) is None);
            }
        }
    }
}

/// A word stands for a status exactly if it is the name of that status.
pub proof fn only_names_stand_for_statuses(word: Seq<char>, status: PlanItemStatus)
    ensures
        parsed_status(word) == Ok::<_, ErrorView>(status) <==> word == status.spec_name(),
        word != "pending"@ && word != "active"@ && word != "completed"@ && word != "skipped"@
            ==> parsed_status(word) == Err::<PlanItemStatus, _>(
            ErrorView::InvalidInput("Unknown plan item status '"@ + word + "'."@),
        ),
{
    status_survives_its_name(status);
    reveal_strlit("pending");
    reveal_strlit("active");
    reveal_strlit("completed");
    reveal_strlit("skipped");
    assert("pending"@.len() == 7 && "active"@.len() == 6 && "completed"@.len() == 9
        && "skipped"@.len() == 7);
    assert("pending"@[0] == 'p' && "skipped"@[0] == 's');
}

/// A session lasts sixty seconds for each minute of its budget, from its start to its deadline.
pub proof fn a_session_lasts_its_minutes(metadata: MetadataView)
    ensures
        metadata.budget() == metadata.duration_minutes * 60_000_000_000,
        metadata.deadline() == metadata.start_time.nanos + metadata.duration_minutes
            * 60_000_000_000,
        metadata.end().nanos == metadata.deadline(),
        metadata.duration_minutes > 0 ==> !metadata.end().leap,
        metadata.duration_minutes == 0 ==> metadata.end() == metadata.start_time,
{
}

} // verus!
