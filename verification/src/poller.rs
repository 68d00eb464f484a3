//! The polling state machine. It decides; its driver acts. The driver hands
//! every event to [`Poller::step`], performs the action that comes back, and
//! reports what happened as the next event.
//!
//! One cycle runs `Idle`, `Fetching`, `Decoding`, `Dispatching`, `Sleeping`
//! and is back at `Idle`. A cycle fails when the fetch, the reading of the
//! body, the decoding or the write of the batch fails. The poller counts the
//! failures in a row and stops for good once they reach the configured limit.

use crate::config::{Config, ConfigError, ConfigView};
use crate::decode::{decode, decoded, decoding_view, DecodeError};
use crate::reading::{DeviceReading, ReadingView};
use crate::translate::{
    batch_points, messages_of, messages_view, points_of, points_view, publish_messages,
    DataPoint, MessageView, PointView, PublishMessage,
};
use vstd::prelude::*;

verus! {

/// After this many seconds a fetch is given up.
pub const HTTP_TIMEOUT_SECS: u64 = 5;

/// What made a cycle fail.
#[derive(Debug, Clone, Copy, PartialEq, Eq, Structural)]
pub enum FailureKind {
    /// The request failed, timed out, or was answered with a status that is
    /// no success.
    Fetch,
    /// The response came, but its body could not be read as text.
    BodyRead,
    /// The body is no status document.
    Decode,
    /// The batch could not be written to the time-series database.
    SinkWrite,
}

/// How a cycle ended.
#[derive(Debug, Clone, Copy, PartialEq, Eq, Structural)]
pub enum CycleOutcome {
    Success,
    Failure(FailureKind),
}

/// Where in its cycle the poller is.
#[derive(Debug, Clone, Copy, PartialEq, Eq, Structural)]
pub enum Phase {
    /// Between two cycles.
    Idle,
    /// The request is out; the response is awaited.
    Fetching,
    /// The response is here; its body is awaited, to be decoded.
    Decoding,
    /// The reading is being sent to the sinks.
    Dispatching,
    /// The cycle is over; the next one starts after the pause.
    Sleeping,
    /// Too many cycles failed in a row. Nothing follows.
    Stopped,
}

/// The driver reported something that the poller was not waiting for.
#[derive(Debug, Clone, Copy, PartialEq, Eq, Structural)]
pub enum ProtocolError {
    Unexpected,
}

/// The mathematical value of an [`Event`].
pub enum EventView {
    Start,
    FetchFailed,
    Response { status: u16 },
    BodyFailed,
    Body(Seq<char>),
    Published { ok: bool },
    Written { ok: bool },
    Woke,
}

/// What the driver reports.
#[derive(Debug, PartialEq, Eq)]
pub enum Event {
    /// Begin the next cycle.
    Start,
    /// The request failed or timed out.
    FetchFailed,
    /// The inverter answered, with this HTTP status.
    Response { status: u16 },
    /// The body could not be read as text.
    BodyFailed,
    /// The body, as text.
    Body(String),
    /// The broker took the message, or did not.
    Published { ok: bool },
    /// The time-series database took the batch, or did not.
    Written { ok: bool },
    /// The pause is over.
    Woke,
}

impl View for Event {
    type V = EventView;

    open spec fn view(&self) -> EventView {
        match self {
            Event::Start => EventView::Start,
            Event::FetchFailed => EventView::FetchFailed,
            Event::Response { status } => EventView::Response { status: *status },
            Event::BodyFailed => EventView::BodyFailed,
            Event::Body(text) => EventView::Body(text@),
            Event::Published { ok } => EventView::Published { ok: *ok },
            Event::Written { ok } => EventView::Written { ok: *ok },
            Event::Woke => EventView::Woke,
        }
    }
}

/// The mathematical value of an [`Action`].
pub enum ActionView {
    Fetch { url: Seq<char>, timeout_secs: u64 },
    ReadBody,
    Publish(MessageView),
    Write { bucket: Seq<char>, points: Seq<PointView> },
    Sleep { secs: u64, outcome: CycleOutcome },
    Idle,
    Stop { errors: nat, outcome: CycleOutcome },
}

/// What the driver is to do next.
#[derive(Debug, PartialEq, Eq)]
pub enum Action {
    /// Request the document at `url`; give up after `timeout_secs` seconds.
    /// Answer with `Response` or `FetchFailed`.
    Fetch { url: String, timeout_secs: u64 },
    /// Read the response's body as text. Answer with `Body` or `BodyFailed`.
    ReadBody,
    /// Publish the message. Answer with `Published`.
    Publish(PublishMessage),
    /// Write the points to `bucket` in one call. Answer with `Written`.
    Write { bucket: String, points: Vec<DataPoint> },
    /// The cycle ended with `outcome`. Pause for `secs` seconds, then answer
    /// with `Woke`.
    Sleep { secs: u64, outcome: CycleOutcome },
    /// Nothing is left to do. Answer with `Start` to begin a cycle.
    Idle,
    /// The cycle ended with `outcome`, and `errors` cycles in a row have
    /// failed: end the process and report the failure.
    Stop { errors: u32, outcome: CycleOutcome },
}

impl View for Action {
    type V = ActionView;

    open spec fn view(&self) -> ActionView {
        match self {
            Action::Fetch { url, timeout_secs } => ActionView::Fetch {
                url: url@,
                timeout_secs: *timeout_secs,
            },
            Action::ReadBody => ActionView::ReadBody,
            Action::Publish(message) => ActionView::Publish(message@),
            Action::Write { bucket, points } => ActionView::Write {
                bucket: bucket@,
                points: points_view(points@),
            },
            Action::Sleep { secs, outcome } => ActionView::Sleep {
                secs: *secs,
                outcome: *outcome,
            },
            Action::Idle => ActionView::Idle,
            Action::Stop { errors, outcome } => ActionView::Stop {
                errors: *errors as nat,
                outcome: *outcome,
            },
        }
    }
}

/// What a step hands back, as mathematical values.
pub open spec fn reply_view(reply: Result<Action, ProtocolError>) -> Result<
    ActionView,
    ProtocolError,
> {
    match reply {
        Ok(action) => Ok(action@),
        Err(e) => Err(e),
    }
}

/// The mathematical value of a [`Poller`].
pub struct PollerView {
    pub config: ConfigView,
    pub phase: Phase,
    /// How many cycles in a row have failed.
    pub errors: nat,
    /// The messages of the cycle, in the order of the samples.
    pub outbox: Seq<MessageView>,
    /// How many of them the broker has answered.
    pub sent: nat,
    /// The points of the cycle, in the order of the samples.
    pub batch: Seq<PointView>,
}

impl PollerView {
    /// What holds of every poller. There is a sink. While the poller runs,
    /// the count of failures is below the limit, or still 0; it never passes
    /// the limit by more than the one failure that stops the poller. While
    /// dispatching the count is 0, something is left to send, and nothing is
    /// held for a sink that is switched off. At any other time nothing is
    /// held at all.
    pub open spec fn wf(self) -> bool {
        &&& self.config.has_sink()
        &&& self.phase != Phase::Stopped ==> self.errors == 0 || self.errors
            < self.config.max_errors
        &&& self.errors <= self.config.max_errors || self.errors <= 1
        &&& self.phase == Phase::Dispatching ==> {
            &&& self.errors == 0
            &&& self.sent <= self.outbox.len()
            &&& self.sent == self.outbox.len() ==> self.batch.len() > 0
            &&& self.config.mqtt is None ==> self.outbox.len() == 0
            &&& self.config.influxdb is None ==> self.batch.len() == 0
        }
        &&& self.phase != Phase::Dispatching ==> {
            &&& self.outbox.len() == 0
            &&& self.sent == 0
            &&& self.batch.len() == 0
        }
    }

    /// The poller before its first cycle.
    pub open spec fn initial(config: ConfigView) -> PollerView {
        PollerView {
            config,
            phase: Phase::Idle,
            errors: 0,
            outbox: Seq::empty(),
            sent: 0,
            batch: Seq::empty(),
        }
    }

    /// The end of a cycle. Success clears the count of failures, a failure
    /// adds one to it. The poller stops where the count has reached the
    /// limit, and pauses otherwise.
    pub open spec fn conclude(self, outcome: CycleOutcome) -> (PollerView, ActionView) {
        let errors: nat = match outcome {
            CycleOutcome::Success => 0,
            CycleOutcome::Failure(_) => self.errors + 1,
        };
        let fatal = errors >= self.config.max_errors;
        (
            PollerView {
                config: self.config,
                phase: if fatal {
                    Phase::Stopped
                } else {
                    Phase::Sleeping
                },
                errors,
                outbox: Seq::empty(),
                sent: 0,
                batch: Seq::empty(),
            },
            if fatal {
                ActionView::Stop { errors, outcome }
            } else {
                ActionView::Sleep { secs: self.config.poll_interval_secs, outcome }
            },
        )
    }

    /// What comes next while dispatching: the next message, then the batch if
    /// it holds a point, then the end of the cycle.
    pub open spec fn dispatch(self) -> (PollerView, ActionView) {
        if self.sent < self.outbox.len() {
            (self, ActionView::Publish(self.outbox[self.sent as int]))
        } else if self.batch.len() > 0 {
            (self, ActionView::Write { bucket: self.config.influxdb->0.bucket, points: self.batch })
        } else {
            self.conclude(CycleOutcome::Success)
        }
    }

    /// A decoded reading starts the dispatch. The count of failures is
    /// cleared at once. Each sink that is switched on gets what the reading
    /// holds for it.
    pub open spec fn accept(self, reading: ReadingView) -> (PollerView, ActionView) {
        PollerView {
            config: self.config,
            phase: Phase::Dispatching,
            errors: 0,
            outbox: if self.config.mqtt is Some {
                messages_of(reading.serial, reading.samples)
            } else {
                Seq::empty()
            },
            sent: 0,
            batch: if self.config.influxdb is Some {
                points_of(reading.serial, reading.samples)
            } else {
                Seq::empty()
            },
        }.dispatch()
    }

    /// What the poller makes of a decoding.
    pub open spec fn digest(self, decoding: Result<ReadingView, DecodeError>) -> (
        PollerView,
        ActionView,
    ) {
        match decoding {
            Ok(reading) => self.accept(reading),
            Err(_) => self.conclude(CycleOutcome::Failure(FailureKind::Decode)),
        }
    }

    /// A decoding, handed in while the body is awaited, moves the poller; at
    /// any other time it changes nothing.
    pub open spec fn digest_step(self, decoding: Result<ReadingView, DecodeError>) -> (
        PollerView,
        Result<ActionView, ProtocolError>,
    ) {
        if self.phase == Phase::Decoding {
            (self.digest(decoding).0, Ok(self.digest(decoding).1))
        } else {
            (self, Err(ProtocolError::Unexpected))
        }
    }

    /// Whether the poller is waiting for this event.
    pub open spec fn awaits(self, event: EventView) -> bool {
        match (self.phase, event) {
            (Phase::Idle, EventView::Start) => true,
            (Phase::Fetching, EventView::FetchFailed) => true,
            (Phase::Fetching, EventView::Response { .. }) => true,
            (Phase::Decoding, EventView::BodyFailed) => true,
            (Phase::Decoding, EventView::Body(_)) => true,
            (Phase::Dispatching, EventView::Published { .. }) => self.sent < self.outbox.len(),
            (Phase::Dispatching, EventView::Written { .. }) => self.sent >= self.outbox.len(),
            (Phase::Sleeping, EventView::Woke) => true,
            _ => false,
        }
    }

    /// The move that an awaited event brings about.
    pub open spec fn react(self, event: EventView) -> (PollerView, ActionView) {
        match event {
            EventView::Start => (
                PollerView { phase: Phase::Fetching, ..self },
                ActionView::Fetch {
                    url: self.config.inverter_url,
                    timeout_secs: HTTP_TIMEOUT_SECS,
                },
            ),
            EventView::FetchFailed => self.conclude(CycleOutcome::Failure(FailureKind::Fetch)),
            EventView::Response { status } => if is_success(status) {
                (PollerView { phase: Phase::Decoding, ..self }, ActionView::ReadBody)
            } else {
                self.conclude(CycleOutcome::Failure(FailureKind::Fetch))
            },
            EventView::BodyFailed => self.conclude(CycleOutcome::Failure(FailureKind::BodyRead)),
            EventView::Body(text) => self.digest(decoded(text)),
            EventView::Published { ok } => PollerView {
                sent: self.sent + 1,
                ..self
            }.dispatch(),
            EventView::Written { ok } => if ok {
                self.conclude(CycleOutcome::Success)
            } else {
                self.conclude(CycleOutcome::Failure(FailureKind::SinkWrite))
            },
            EventView::Woke => (PollerView { phase: Phase::Idle, ..self }, ActionView::Idle),
        }
    }

    /// One step: an awaited event moves the poller, any other leaves it as
    /// it is.
    pub open spec fn step(self, event: EventView) -> (PollerView, Result<ActionView, ProtocolError>) {
        if self.awaits(event) {
            (self.react(event).0, Ok(self.react(event).1))
        } else {
            (self, Err(ProtocolError::Unexpected))
        }
    }
}

/// The events with which the driver may answer an action.
pub open spec fn answers(action: ActionView, event: EventView) -> bool {
    match action {
        ActionView::Fetch { .. } => event is FetchFailed || event is Response,
        ActionView::ReadBody => event is BodyFailed || event is Body,
        ActionView::Publish(_) => event is Published,
        ActionView::Write { .. } => event is Written,
        ActionView::Sleep { .. } => event is Woke,
        ActionView::Idle => event is Start,
        ActionView::Stop { .. } => false,
    }
}

/// The HTTP statuses that mean success.
pub open spec fn is_success(status: u16) -> bool {
    200 <= status < 300
}

/// What changes from step to step.
struct Progress {
    phase: Phase,
    errors: u32,
    outbox: Vec<PublishMessage>,
    sent: usize,
    batch: Vec<DataPoint>,
}

/// The poller: the configuration it runs with, and where it stands.
pub struct Poller {
    config: Config,
    progress: Progress,
}

impl View for Poller {
    type V = PollerView;

    closed spec fn view(&self) -> PollerView {
        PollerView {
            config: self.config@,
            phase: self.progress.phase,
            errors: self.progress.errors as nat,
            outbox: messages_view(self.progress.outbox@),
            sent: self.progress.sent as nat,
            batch: points_view(self.progress.batch@),
        }
    }
}

/// A copy of a list of points.
fn copy_points(points: &Vec<DataPoint>) -> (copy: Vec<DataPoint>)
    ensures
        points_view(copy@) == points_view(points@),
{
    let mut copy: Vec<DataPoint> = Vec::new();
    let mut i: usize = 0;
    while i < points.len()
        invariant
            i <= points.len(),
            copy.len() == i,
            forall|j: int| 0 <= j < i ==> copy[j]@ == points[j]@,
        decreases points.len() - i,
    {
        copy.push(points[i].clone());
        i = i + 1;
    }
    copy
}

/// Whether the HTTP status means success.
pub fn status_is_success(status: u16) -> (r: bool)
    ensures
        r == is_success(status),
{
    200 <= status && status < 300
}

impl Poller {
    #[verifier::type_invariant]
    spec fn sound(self) -> bool {
        self@.wf()
    }

    /// A poller for the configuration, before its first cycle. A
    /// configuration without a sink is refused.
    pub fn new(config: Config) -> (r: Result<Poller, ConfigError>)
        ensures
            r is Ok <==> config@.has_sink(),
            r matches Ok(poller) ==> poller@ == PollerView::initial(config@),
            r matches Err(e) ==> e == ConfigError::NoSink,
    {
        match config.validate() {
            Ok(()) => {
                let progress = Progress {
                    phase: Phase::Idle,
                    errors: 0,
                    outbox: Vec::new(),
                    sent: 0,
                    batch: Vec::new(),
                };
                assert(messages_view(progress.outbox@) =~= Seq::<MessageView>::empty());
                assert(points_view(progress.batch@) =~= Seq::<PointView>::empty());
                Ok(Poller { config, progress })
            },
            Err(e) => Err(e),
        }
    }

    /// Where in its cycle the poller is.
    pub fn phase(&self) -> (phase: Phase)
        ensures
            phase == self@.phase,
            self@.wf(),
    {
        proof {
            use_type_invariant(self);
        }
        self.progress.phase
    }

    /// How many cycles in a row have failed.
    pub fn errors(&self) -> (errors: u32)
        ensures
            errors == self@.errors,
            self@.wf(),
    {
        proof {
            use_type_invariant(self);
        }
        self.progress.errors
    }

    /// The configuration that the poller runs with.
    pub fn config(&self) -> (config: &Config)
        ensures
            config@ == self@.config,
            self@.wf(),
    {
        proof {
            use_type_invariant(self);
        }
        &self.config
    }

    /// Ends the cycle.
    fn conclude(&mut self, outcome: CycleOutcome) -> (action: Action)
        requires
            old(self)@.phase != Phase::Stopped,
        ensures
            (final(self)@, action@) == old(self)@.conclude(outcome),
    {
        proof {
            use_type_invariant(&*self);
        }
        let errors: u32 = match outcome {
            CycleOutcome::Success => 0,
            CycleOutcome::Failure(_) => self.progress.errors + 1,
        };
        let fatal = errors >= self.config.max_errors;
        self.progress = Progress {
            phase: if fatal {
                Phase::Stopped
            } else {
                Phase::Sleeping
            },
            errors,
            outbox: Vec::new(),
            sent: 0,
            batch: Vec::new(),
        };
        assert(messages_view(self.progress.outbox@) =~= Seq::<MessageView>::empty());
        assert(points_view(self.progress.batch@) =~= Seq::<PointView>::empty());
        if fatal {
            Action::Stop { errors, outcome }
        } else {
            Action::Sleep { secs: self.config.poll_interval_secs, outcome }
        }
    }

    /// Goes on with the dispatch.
    fn dispatch(&mut self) -> (action: Action)
        requires
            old(self)@.phase == Phase::Dispatching,
        ensures
            (final(self)@, action@) == old(self)@.dispatch(),
    {
        proof {
            use_type_invariant(&*self);
        }
        if self.progress.sent < self.progress.outbox.len() {
            return Action::Publish(self.progress.outbox[self.progress.sent].clone());
        }
        match &self.config.influxdb {
            Some(sink) if self.progress.batch.len() > 0 => Action::Write {
                bucket: sink.bucket.clone(),
                points: copy_points(&self.progress.batch),
            },
            _ => self.conclude(CycleOutcome::Success),
        }
    }

    /// Takes in what the decoder made of the body, while the body is awaited:
    /// a reading is dispatched, an error ends the cycle. At any other time
    /// nothing changes.
    pub fn digest(&mut self, decoding: Result<DeviceReading, DecodeError>) -> (reply: Result<
        Action,
        ProtocolError,
    >)
        ensures
            (final(self)@, reply_view(reply)) == old(self)@.digest_step(decoding_view(decoding)),
    {
        if self.progress.phase == Phase::Decoding {
            Ok(self.take_in(decoding))
        } else {
            Err(ProtocolError::Unexpected)
        }
    }

    /// Takes in what the decoder made of the body.
    fn take_in(&mut self, decoding: Result<DeviceReading, DecodeError>) -> (action: Action)
        requires
            old(self)@.phase == Phase::Decoding,
        ensures
            (final(self)@, action@) == old(self)@.digest(decoding_view(decoding)),
    {
        proof {
            use_type_invariant(&*self);
        }
        match decoding {
            Ok(reading) => {
                let outbox = if self.config.mqtt.is_some() {
                    publish_messages(&reading)
                } else {
                    Vec::new()
                };
                let batch = if self.config.influxdb.is_some() {
                    batch_points(&reading)
                } else {
                    Vec::new()
                };
                assert(self.config.mqtt is None ==> messages_view(outbox@) =~= Seq::<
                    MessageView,
                >::empty());
                assert(self.config.influxdb is None ==> points_view(batch@) =~= Seq::<
                    PointView,
                >::empty());
                if outbox.len() == 0 && batch.len() == 0 {
                    self.conclude(CycleOutcome::Success)
                } else {
                    self.progress = Progress {
                        phase: Phase::Dispatching,
                        errors: 0,
                        outbox,
                        sent: 0,
                        batch,
                    };
                    self.dispatch()
                }
            },
            Err(_) => self.conclude(CycleOutcome::Failure(FailureKind::Decode)),
        }
    }

    /// One step of the machine: takes what the driver reports and says what
    /// the driver is to do next. An event that the poller is not waiting for
    /// changes nothing.
    pub fn step(&mut self, event: Event) -> (reply: Result<Action, ProtocolError>)
        ensures
            (final(self)@, reply_view(reply)) == old(self)@.step(event@),
    {
        proof {
            use_type_invariant(&*self);
        }
        match (self.progress.phase, event) {
            (Phase::Idle, Event::Start) => {
                self.progress.phase = Phase::Fetching;
                Ok(Action::Fetch {
                    url: self.config.inverter_url.clone(),
                    timeout_secs: HTTP_TIMEOUT_SECS,
                })
            },
            (Phase::Fetching, Event::FetchFailed) => Ok(
                self.conclude(CycleOutcome::Failure(FailureKind::Fetch)),
            ),
            (Phase::Fetching, Event::Response { status }) => {
                if status_is_success(status) {
                    self.progress.phase = Phase::Decoding;
                    Ok(Action::ReadBody)
                } else {
                    Ok(self.conclude(CycleOutcome::Failure(FailureKind::Fetch)))
                }
            },
            (Phase::Decoding, Event::BodyFailed) => Ok(
                self.conclude(CycleOutcome::Failure(FailureKind::BodyRead)),
            ),
            (Phase::Decoding, Event::Body(text)) => Ok(self.take_in(decode(text.as_str()))),
            (Phase::Dispatching, Event::Published { ok }) => {
                if self.progress.sent < self.progress.outbox.len() {
                    let sent = self.progress.sent + 1;
                    if sent == self.progress.outbox.len() && self.progress.batch.len() == 0 {
                        Ok(self.conclude(CycleOutcome::Success))
                    } else {
                        self.progress.sent = sent;
                        Ok(self.dispatch())
                    }
                } else {
                    Err(ProtocolError::Unexpected)
                }
            },
            (Phase::Dispatching, Event::Written { ok }) => {
                if self.progress.sent >= self.progress.outbox.len() {
                    if ok {
                        Ok(self.conclude(CycleOutcome::Success))
                    } else {
                        Ok(self.conclude(CycleOutcome::Failure(FailureKind::SinkWrite)))
                    }
                } else {
                    Err(ProtocolError::Unexpected)
                }
            },
            (Phase::Sleeping, Event::Woke) => {
                self.progress.phase = Phase::Idle;
                Ok(Action::Idle)
            },
            _ => Err(ProtocolError::Unexpected),
        }
    }
}

/// Every step leaves the poller well formed, and its configuration as it
/// was: a sink that is switched off stays off.
pub proof fn lemma_step_keeps_wf(s: PollerView, event: EventView)
    requires
        s.wf(),
    ensures
        s.step(event).0.wf(),
        s.step(event).0.config == s.config,
{
}

/// A decoded body clears the count of failures at once, and the count stays
/// clear all through the dispatch, whatever the broker answers. Only a batch
/// that could not be written makes it 1.
pub proof fn lemma_reading_clears_errors(s: PollerView, event: EventView)
    requires
        s.wf(),
        s.awaits(event),
    ensures
        event matches EventView::Body(text) && decoded(text) is Ok ==> s.step(event).0.errors == 0,
        s.phase == Phase::Dispatching ==> s.step(event).0.errors == (if event
            == (EventView::Written { ok: false }) {
            1nat
        } else {
            0nat
        }),
{
}

/// A cycle that ends in success leaves the count of failures at 0; one that
/// ends in a failure, of whatever kind, adds exactly one to it.
pub proof fn lemma_failure_adds_one(s: PollerView, event: EventView)
    requires
        s.wf(),
    ensures
        match s.step(event).1 {
            Ok(ActionView::Sleep { outcome, .. }) | Ok(ActionView::Stop { outcome, .. }) => s.step(
                event,
            ).0.errors == (match outcome {
                CycleOutcome::Success => 0,
                CycleOutcome::Failure(_) => s.errors + 1,
            }),
            _ => s.step(event).0.errors == s.errors || (event is Body && s.step(event).0.errors
                == 0),
        },
{
}

/// The poller stops exactly when a cycle ends with the count of failures at
/// the limit, and says how many there were. Any other end of a cycle is
/// followed by the configured pause, whatever the outcome.
pub proof fn lemma_stops_at_limit(s: PollerView, event: EventView)
    requires
        s.wf(),
        s.phase != Phase::Stopped,
    ensures
        s.step(event).0.phase == Phase::Stopped <==> s.step(event).1 is Ok && s.step(
            event,
        ).1->Ok_0 is Stop,
        s.step(event).1 is Ok && s.step(event).1->Ok_0 is Sleep ==> s.step(event).0.phase
            == Phase::Sleeping,
        s.step(event).1 matches Ok(ActionView::Stop { errors, .. }) ==> errors == s.step(
            event,
        ).0.errors && errors >= s.config.max_errors,
        s.step(event).1 matches Ok(ActionView::Sleep { secs, .. }) ==> secs
            == s.config.poll_interval_secs && s.step(event).0.errors < s.config.max_errors,
{
}

/// Once stopped, the poller takes no event and never moves again.
pub proof fn lemma_stopped_is_final(s: PollerView, event: EventView)
    requires
        s.phase == Phase::Stopped,
    ensures
        s.step(event) == (s, Err::<ActionView, ProtocolError>(ProtocolError::Unexpected)),
{
}

/// A message that the broker did not take holds nothing up: the poller goes
/// on as if it had been taken.
pub proof fn lemma_publish_answer_is_ignored(s: PollerView)
    ensures
        s.step(EventView::Published { ok: false }) == s.step(EventView::Published { ok: true }),
{
}

/// The sinks get what is theirs, in order: each message is the next of the
/// cycle's messages, for a broker that is configured; the batch is written
/// once all messages are out, in one piece, to the configured bucket, and
/// never when it is empty.
pub proof fn lemma_dispatch_order(s: PollerView, event: EventView)
    requires
        s.wf(),
    ensures
        s.step(event).1 matches Ok(ActionView::Publish(message)) ==> {
            let next = s.step(event).0;
            &&& next.phase == Phase::Dispatching
            &&& next.config.mqtt is Some
            &&& next.sent < next.outbox.len()
            &&& message == next.outbox[next.sent as int]
        },
        s.step(event).1 matches Ok(ActionView::Write { bucket, points }) ==> {
            let next = s.step(event).0;
            &&& next.phase == Phase::Dispatching
            &&& next.config.influxdb is Some
            &&& bucket == next.config.influxdb->0.bucket
            &&& next.sent == next.outbox.len()
            &&& points == next.batch
            &&& points.len() > 0
        },
{
}

/// A driver that answers each action as the action asks is never refused:
/// after a step the poller waits for exactly the answers to the action that
/// it handed out.
pub proof fn lemma_answers_are_awaited(s: PollerView, event: EventView, answer: EventView)
    requires
        s.wf(),
        s.step(event).1 is Ok,
    ensures
        s.step(event).0.awaits(answer) <==> answers(s.step(event).1->Ok_0, answer),
{
}

} // verus!
