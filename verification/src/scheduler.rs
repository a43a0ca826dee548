//! The reporting loop as a machine: the caller performs each action and
//! hands back what came of it; the machine says what to do next.
//!
//! One cycle is one inspection, then a report if the inspected name has a
//! status, then a pause. The machine never stops by itself, and nothing
//! that happens within a cycle keeps the next one from starting.

use vstd::prelude::*;
use crate::config::{csv_rows, parse, records_of, ConfigError, RowError};
use crate::report::{
    absent, accepted, request_for, setting_text, Credentials, CredentialsError, CredentialsView,
    Delivery, ReportRequest, RequestView,
};
use crate::table::{lookup_in, table_of, RecordView, StateTable};

verus! {

/// The pause between two cycles, in seconds. It starts when the cycle's work
/// is done.
pub const PERIOD_SECONDS: u64 = 10;

/// Where the running loop stands. There is no phase for having stopped.
#[derive(Debug, Clone, Copy, PartialEq, Eq)]
pub enum Phase {
    /// The foreground application is being asked for.
    Inspecting,
    /// A report is on its way.
    Reporting,
    /// The pause before the next cycle.
    Waiting,
}

/// What the caller hands back after performing an action.
#[derive(Debug, Clone, PartialEq, Eq)]
pub enum Event {
    /// The inspection ended: the name of the focused application's
    /// executable, or none where it could not be told.
    Sampled(Option<String>),
    /// The attempt to deliver the report ended.
    Delivered(Delivery),
    /// The pause is over.
    TickElapsed,
}

/// What an `Event` holds, as plain text.
pub enum EventView {
    Sampled(Option<Seq<char>>),
    Delivered(Delivery),
    TickElapsed,
}

impl View for Event {
    type V = EventView;

    open spec fn view(&self) -> EventView {
        match self {
            Event::Sampled(Some(name)) => EventView::Sampled(Some(name@)),
            Event::Sampled(None) => EventView::Sampled(None),
            Event::Delivered(delivery) => EventView::Delivered(*delivery),
            Event::TickElapsed => EventView::TickElapsed,
        }
    }
}

/// What the caller is to do next.
#[derive(Debug, Clone, PartialEq, Eq)]
pub enum Action {
    /// Ask which application has the focus.
    Inspect,
    /// Send this report.
    Post(ReportRequest),
    /// Pause for this many seconds.
    Sleep(u64),
}

/// What an `Action` holds, as plain text.
pub enum ActionView {
    Inspect,
    Post(RequestView),
    Sleep(u64),
}

impl View for Action {
    type V = ActionView;

    open spec fn view(&self) -> ActionView {
        match self {
            Action::Inspect => ActionView::Inspect,
            Action::Post(request) => ActionView::Post(request@),
            Action::Sleep(seconds) => ActionView::Sleep(*seconds),
        }
    }
}

/// Something for the diagnostic log; none of these stops the loop.
#[derive(Debug, Clone, Copy, PartialEq, Eq)]
pub enum Notice {
    /// The focused application has no entry in the state table.
    Unmatched,
    /// The server answered the report with this status, which is no success.
    Rejected(u16),
    /// The report did not reach the server.
    Undelivered,
}

/// One move of the machine.
#[derive(Debug, Clone, PartialEq, Eq)]
pub struct Step {
    pub phase: Phase,
    pub action: Action,
    pub notice: Option<Notice>,
}

/// What a `Step` holds, as plain text.
pub struct StepView {
    pub phase: Phase,
    pub action: ActionView,
    pub notice: Option<Notice>,
}

impl View for Step {
    type V = StepView;

    open spec fn view(&self) -> StepView {
        StepView { phase: self.phase, action: self.action@, notice: self.notice }
    }
}

/// What is logged of a delivery: nothing where the report was accepted.
pub open spec fn notice_of(delivery: Delivery) -> Option<Notice> {
    match delivery {
        Delivery::Answered(status) => if accepted(delivery) {
            None
        } else {
            Some(Notice::Rejected(status))
        },
        Delivery::Failed => Some(Notice::Undelivered),
    }
}

/// The pause that ends every cycle.
pub open spec fn pause(notice: Option<Notice>) -> StepView {
    StepView { phase: Phase::Waiting, action: ActionView::Sleep(PERIOD_SECONDS), notice }
}

/// The machine. In each phase one kind of event is awaited; any other event
/// gets no step.
pub open spec fn step_of(
    credentials: CredentialsView,
    table: Map<Seq<char>, Seq<char>>,
    phase: Phase,
    event: EventView,
) -> Option<StepView> {
    match (phase, event) {
        (Phase::Inspecting, EventView::Sampled(None)) => Some(pause(None)),
        (Phase::Inspecting, EventView::Sampled(Some(name))) => match lookup_in(table, name) {
            None => Some(pause(Some(Notice::Unmatched))),
            Some(description) => Some(
                StepView {
                    phase: Phase::Reporting,
                    action: ActionView::Post(request_for(credentials, description)),
                    notice: None,
                },
            ),
        },
        (Phase::Reporting, EventView::Delivered(delivery)) => Some(pause(notice_of(delivery))),
        (Phase::Waiting, EventView::TickElapsed) => Some(
            StepView { phase: Phase::Inspecting, action: ActionView::Inspect, notice: None },
        ),
        _ => None,
    }
}

/// Why the loop did not start.
#[derive(Debug, Clone, PartialEq, Eq)]
pub enum StartupError {
    Credentials(CredentialsError),
    Config(ConfigError),
}

/// Credentials and state table, fixed for the life of the loop.
pub struct Agent {
    credentials: Credentials,
    table: StateTable,
}

/// What an `Agent` holds, as plain values.
pub struct AgentView {
    pub credentials: CredentialsView,
    pub table: Map<Seq<char>, Seq<char>>,
}

impl View for Agent {
    type V = AgentView;

    closed spec fn view(&self) -> AgentView {
        AgentView { credentials: self.credentials@, table: self.table@ }
    }
}

impl Delivery {
    /// What is logged of this delivery.
    pub fn notice(&self) -> (notice: Option<Notice>)
        ensures
            notice == notice_of(*self),
    {
        match self {
            Delivery::Answered(status) => if self.is_accepted() {
                None
            } else {
                Some(Notice::Rejected(*status))
            },
            Delivery::Failed => Some(Notice::Undelivered),
        }
    }
}

impl Agent {
    /// An agent of credentials and a table that exist already.
    pub fn new(credentials: Credentials, table: StateTable) -> (agent: Agent)
        ensures
            agent@.credentials == credentials@,
            agent@.table == table@,
    {
        Agent { credentials, table }
    }

    /// Everything that precedes the loop: the two settings must be usable,
    /// then the configuration text must give its records, which build the
    /// table. The first of these that fails is the error, and no agent
    /// exists, so no cycle can run.
    pub fn start(server: Option<String>, token: Option<String>, config: &[u8]) -> (outcome: Result<
        Agent,
        StartupError,
    >)
        ensures
            match outcome {
                Ok(agent) => {
                    &&& !absent(setting_text(server))
                    &&& !absent(setting_text(token))
                    &&& agent@.credentials.server == server.unwrap()@
                    &&& agent@.credentials.token == token.unwrap()@
                    &&& csv_rows(config@).is_some()
                    &&& records_of(csv_rows(config@).unwrap()).is_ok()
                    &&& agent@.table == table_of(records_of(csv_rows(config@).unwrap()).unwrap())
                },
                Err(StartupError::Credentials(CredentialsError::MissingServer)) => absent(
                    setting_text(server),
                ),
                Err(StartupError::Credentials(CredentialsError::MissingToken)) => !absent(
                    setting_text(server),
                ) && absent(setting_text(token)),
                Err(StartupError::Config(ConfigError::Syntax(_))) => {
                    &&& !absent(setting_text(server))
                    &&& !absent(setting_text(token))
                    &&& csv_rows(config@).is_none()
                },
                Err(StartupError::Config(ConfigError::Row(error))) => {
                    &&& !absent(setting_text(server))
                    &&& !absent(setting_text(token))
                    &&& csv_rows(config@).is_some()
                    &&& records_of(csv_rows(config@).unwrap()) == Err::<Seq<RecordView>, RowError>(
                        error,
                    )
                },
            },
    {
        let credentials = match Credentials::new(server, token) {
            Ok(credentials) => credentials,
            Err(error) => { return Err(StartupError::Credentials(error)); },
        };
        let records = match parse(config) {
            Ok(records) => records,
            Err(error) => { return Err(StartupError::Config(error)); },
        };
        let table = StateTable::from_records(records.as_slice());
        Ok(Agent { credentials, table })
    }

    /// The credentials that reports are sent with.
    pub fn credentials(&self) -> (credentials: &Credentials)
        ensures
            credentials@ == self@.credentials,
    {
        &self.credentials
    }

    /// The state table.
    pub fn table(&self) -> (table: &StateTable)
        ensures
            table@ == self@.table,
    {
        &self.table
    }

    /// Where the loop begins: the first inspection, at once.
    pub fn begin(&self) -> (first: (Phase, Action))
        ensures
            first.0 == Phase::Inspecting,
            first.1 == Action::Inspect,
    {
        (Phase::Inspecting, Action::Inspect)
    }

    /// One move: what follows `event` in `phase`; none where the phase does
    /// not await that event.
    pub fn step(&self, phase: Phase, event: &Event) -> (next: Option<Step>)
        ensures
            match next {
                Some(step) => step_of(self@.credentials, self@.table, phase, event@) == Some(step@),
                None => step_of(self@.credentials, self@.table, phase, event@).is_none(),
            },
    {
        match (phase, event) {
            (Phase::Inspecting, Event::Sampled(None)) => Some(
                Step { phase: Phase::Waiting, action: Action::Sleep(PERIOD_SECONDS), notice: None },
            ),
            (Phase::Inspecting, Event::Sampled(Some(name))) => match self.table.lookup(
                name.as_str(),
            ) {
                None => Some(
                    Step {
                        phase: Phase::Waiting,
                        action: Action::Sleep(PERIOD_SECONDS),
                        notice: Some(Notice::Unmatched),
                    },
                ),
                Some(description) => Some(
                    Step {
                        phase: Phase::Reporting,
                        action: Action::Post(self.credentials.request(description.as_str())),
                        notice: None,
                    },
                ),
            },
            (Phase::Reporting, Event::Delivered(delivery)) => Some(
                Step {
                    phase: Phase::Waiting,
                    action: Action::Sleep(PERIOD_SECONDS),
                    notice: delivery.notice(),
                },
            ),
            (Phase::Waiting, Event::TickElapsed) => Some(
                Step { phase: Phase::Inspecting, action: Action::Inspect, notice: None },
            ),
            _ => None,
        }
    }
}

/// The event that a phase awaits is the only kind that moves the machine.
pub open spec fn awaited(phase: Phase, event: EventView) -> bool {
    match (phase, event) {
        (Phase::Inspecting, EventView::Sampled(_)) => true,
        (Phase::Reporting, EventView::Delivered(_)) => true,
        (Phase::Waiting, EventView::TickElapsed) => true,
        _ => false,
    }
}

/// The actions of one whole cycle, from the sample that opens it to the
/// action that opens the next one. `delivery` is how the report ends, if the
/// cycle sends one.
pub open spec fn cycle_actions(
    credentials: CredentialsView,
    table: Map<Seq<char>, Seq<char>>,
    sample: Option<Seq<char>>,
    delivery: Delivery,
) -> Seq<ActionView> {
    let sampled = step_of(credentials, table, Phase::Inspecting, EventView::Sampled(sample)).unwrap();
    let resumed = step_of(credentials, table, Phase::Waiting, EventView::TickElapsed).unwrap();
    if sampled.phase == Phase::Reporting {
        let delivered = step_of(
            credentials,
            table,
            Phase::Reporting,
            EventView::Delivered(delivery),
        ).unwrap();
        seq![sampled.action, delivered.action, resumed.action]
    } else {
        seq![sampled.action, resumed.action]
    }
}

/// The reports among some actions, in order.
pub open spec fn posts(actions: Seq<ActionView>) -> Seq<RequestView>
    decreases actions.len(),
{
    if actions.len() == 0 {
        Seq::empty()
    } else {
        match actions.last() {
            ActionView::Post(request) => posts(actions.drop_last()).push(request),
            _ => posts(actions.drop_last()),
        }
    }
}

/// The machine moves exactly on the event that its phase awaits, so it
/// never comes to rest: whatever was handed back, some action follows.
pub proof fn lemma_never_stops(
    credentials: CredentialsView,
    table: Map<Seq<char>, Seq<char>>,
    phase: Phase,
    event: EventView,
)
    ensures
        step_of(credentials, table, phase, event).is_some() <==> awaited(phase, event),
{
}

/// A report is sent for one reason only: the inspection named an application
/// that the table knows. The report then carries that entry's description.
pub proof fn lemma_post_iff_matched(
    credentials: CredentialsView,
    table: Map<Seq<char>, Seq<char>>,
    phase: Phase,
    event: EventView,
    request: RequestView,
)
    ensures
        (step_of(credentials, table, phase, event).is_some() && step_of(
            credentials,
            table,
            phase,
            event,
        ).unwrap().action == ActionView::Post(request)) <==> (phase == Phase::Inspecting && exists|
            name: Seq<char>,
        |
            event == EventView::Sampled(Some(name)) && lookup_in(table, name).is_some() && request
                == request_for(credentials, #[trigger] lookup_in(table, name).unwrap())),
{
    if phase == Phase::Inspecting {
        match event {
            EventView::Sampled(Some(name)) => {
                if lookup_in(table, name).is_some() && request == request_for(
                    credentials,
                    lookup_in(table, name).unwrap(),
                ) {
                    assert(event == EventView::Sampled(Some(name)));
                }
            },
            _ => {},
        }
    }
}

/// A cycle whose inspection names nothing sends no report.
pub proof fn lemma_no_sample_no_post(
    credentials: CredentialsView,
    table: Map<Seq<char>, Seq<char>>,
    delivery: Delivery,
)
    ensures
        posts(cycle_actions(credentials, table, None, delivery)).len() == 0,
{
    reveal_with_fuel(posts, 3);
}

/// A cycle whose inspection names an application that the table does not
/// know sends no report.
pub proof fn lemma_unmatched_no_post(
    credentials: CredentialsView,
    table: Map<Seq<char>, Seq<char>>,
    name: Seq<char>,
    delivery: Delivery,
)
    requires
        lookup_in(table, name).is_none(),
    ensures
        posts(cycle_actions(credentials, table, Some(name), delivery)).len() == 0,
{
    reveal_with_fuel(posts, 3);
}

/// A cycle whose inspection names an application that the table knows sends
/// exactly one report: the entry's description, to the server, with the
/// token behind `Bearer`.
pub proof fn lemma_matched_one_post(
    credentials: CredentialsView,
    table: Map<Seq<char>, Seq<char>>,
    name: Seq<char>,
    delivery: Delivery,
)
    requires
        lookup_in(table, name).is_some(),
    ensures
        posts(cycle_actions(credentials, table, Some(name), delivery)) == seq![
            request_for(credentials, lookup_in(table, name).unwrap()),
        ],
{
    reveal_with_fuel(posts, 4);
    let actions = cycle_actions(credentials, table, Some(name), delivery);
    let request = request_for(credentials, lookup_in(table, name).unwrap());
    assert(actions.drop_last().drop_last() =~= seq![ActionView::Post(request)]);
    assert(actions.drop_last().drop_last().drop_last() =~= Seq::<ActionView>::empty());
    assert(posts(actions) =~= seq![request]);
}

/// However a delivery ends, the pause follows it and the next inspection
/// follows the pause: a failed report costs that report and nothing else.
pub proof fn lemma_delivery_never_blocks(
    credentials: CredentialsView,
    table: Map<Seq<char>, Seq<char>>,
    delivery: Delivery,
)
    ensures
        step_of(credentials, table, Phase::Reporting, EventView::Delivered(delivery)) == Some(
            pause(notice_of(delivery)),
        ),
        step_of(credentials, table, Phase::Waiting, EventView::TickElapsed) == Some(
            StepView { phase: Phase::Inspecting, action: ActionView::Inspect, notice: None },
        ),
        notice_of(delivery).is_none() <==> accepted(delivery),
{
}

/// Every cycle, whatever it inspected and however its report ended, closes
/// with the pause and then opens the next cycle.
pub proof fn lemma_cycle_leads_to_next(
    credentials: CredentialsView,
    table: Map<Seq<char>, Seq<char>>,
    sample: Option<Seq<char>>,
    delivery: Delivery,
)
    ensures
        ({
            let actions = cycle_actions(credentials, table, sample, delivery);
            &&& actions.len() >= 2
            &&& actions[actions.len() - 2] == ActionView::Sleep(PERIOD_SECONDS)
            &&& actions.last() == ActionView::Inspect
        }),
{
}

} // verus!
