//! From one sample to what each sink takes: a topic and a payload for the
//! broker, a tagged point for the time-series database. A sample that a sink
//! cannot take is left out for that sink, without an error.

use crate::decimal::{is_float_text, parses_as_float};
use crate::reading::{samples_view, DeviceReading, MeasurementSample, SampleView};
use crate::text::{is_white_space, lemma_trim_end_keeps_prefix, trim, trim_end, trimmed};
use vstd::prelude::*;
use vstd::string::*;

verus! {

/// How often the broker may deliver a message.
#[derive(Debug, Clone, Copy, PartialEq, Eq, Structural)]
pub enum Delivery {
    AtMostOnce,
    AtLeastOnce,
    ExactlyOnce,
}

/// The mathematical value of a [`PublishMessage`].
pub struct MessageView {
    pub topic: Seq<char>,
    pub payload: Seq<char>,
    pub delivery: Delivery,
    pub retain: bool,
}

/// One message for the broker.
#[derive(Debug, PartialEq, Eq)]
pub struct PublishMessage {
    pub topic: String,
    pub payload: String,
    pub delivery: Delivery,
    pub retain: bool,
}

impl View for PublishMessage {
    type V = MessageView;

    open spec fn view(&self) -> MessageView {
        MessageView {
            topic: self.topic@,
            payload: self.payload@,
            delivery: self.delivery,
            retain: self.retain,
        }
    }
}

impl Clone for PublishMessage {
    fn clone(&self) -> (r: Self)
        ensures
            r@ == self@,
    {
        PublishMessage {
            topic: self.topic.clone(),
            payload: self.payload.clone(),
            delivery: self.delivery,
            retain: self.retain,
        }
    }
}

/// The mathematical value of a [`Tag`].
pub struct TagView {
    pub key: Seq<char>,
    pub value: Seq<char>,
}

/// A tag of a point: a key and its value.
#[derive(Debug, PartialEq, Eq)]
pub struct Tag {
    pub key: String,
    pub value: String,
}

impl View for Tag {
    type V = TagView;

    open spec fn view(&self) -> TagView {
        TagView { key: self.key@, value: self.value@ }
    }
}

impl Clone for Tag {
    fn clone(&self) -> (r: Self)
        ensures
            r@ == self@,
    {
        Tag { key: self.key.clone(), value: self.value.clone() }
    }
}

/// The mathematical values of a list of tags, in its order.
pub open spec fn tags_view(tags: Seq<Tag>) -> Seq<TagView> {
    Seq::new(tags.len(), |i: int| tags[i]@)
}

/// The mathematical value of a [`DataPoint`].
pub struct PointView {
    pub measurement: Seq<char>,
    pub tags: Seq<TagView>,
    pub field: Seq<char>,
    pub value: Seq<char>,
}

/// One point for the time-series database. The one field's value is kept as
/// the text that denotes it, which always satisfies [`is_float_text`].
#[derive(Debug, PartialEq, Eq)]
pub struct DataPoint {
    pub measurement: String,
    pub tags: Vec<Tag>,
    pub field: String,
    pub value: String,
}

impl View for DataPoint {
    type V = PointView;

    open spec fn view(&self) -> PointView {
        PointView {
            measurement: self.measurement@,
            tags: tags_view(self.tags@),
            field: self.field@,
            value: self.value@,
        }
    }
}

impl Clone for DataPoint {
    fn clone(&self) -> (r: Self)
        ensures
            r@ == self@,
    {
        let mut tags: Vec<Tag> = Vec::new();
        let mut i: usize = 0;
        while i < self.tags.len()
            invariant
                i <= self.tags.len(),
                tags.len() == i,
                forall|j: int| 0 <= j < i ==> tags[j]@ == self.tags[j]@,
            decreases self.tags.len() - i,
        {
            tags.push(self.tags[i].clone());
            i = i + 1;
        }
        assert(tags_view(tags@) =~= tags_view(self.tags@));
        DataPoint {
            measurement: self.measurement.clone(),
            tags,
            field: self.field.clone(),
            value: self.value.clone(),
        }
    }
}

/// The topic under which a measurement of kind `kind` of the device `serial`
/// is published.
pub open spec fn topic_of(serial: Seq<char>, kind: Seq<char>) -> Seq<char> {
    "inverter/"@ + serial + "/"@ + kind
}

/// The unit's text, empty where there is none.
pub open spec fn unit_text(unit: Option<Seq<char>>) -> Seq<char> {
    match unit {
        Some(u) => u,
        None => Seq::empty(),
    }
}

/// The payload: the value, a space and the unit, without surrounding white
/// space.
pub open spec fn payload_of(raw: Seq<char>, unit: Option<Seq<char>>) -> Seq<char> {
    trimmed(raw + " "@ + unit_text(unit))
}

/// What the broker gets for a sample: nothing without a value.
pub open spec fn message_of(serial: Seq<char>, sample: SampleView) -> Option<MessageView> {
    match sample.raw_value {
        Some(raw) => Some(
            MessageView {
                topic: topic_of(serial, sample.kind),
                payload: payload_of(raw, sample.unit),
                delivery: Delivery::AtLeastOnce,
                retain: false,
            },
        ),
        None => None,
    }
}

/// The tags of a point: the serial number, the kind and, where the sample has
/// one, the unit.
pub open spec fn tags_of(serial: Seq<char>, kind: Seq<char>, unit: Option<Seq<char>>) -> Seq<
    TagView,
> {
    let identity = seq![
        TagView { key: "serial"@, value: serial },
        TagView { key: "type"@, value: kind },
    ];
    match unit {
        Some(u) => identity.push(TagView { key: "unit"@, value: u }),
        None => identity,
    }
}

/// What the time-series database gets for a sample: nothing without a value,
/// and nothing for a value that denotes no number.
pub open spec fn point_of(serial: Seq<char>, sample: SampleView) -> Option<PointView> {
    match sample.raw_value {
        Some(raw) => if is_float_text(raw) {
            Some(
                PointView {
                    measurement: "inverter_data"@,
                    tags: tags_of(serial, sample.kind, sample.unit),
                    field: "value"@,
                    value: raw,
                },
            )
        } else {
            None
        },
        None => None,
    }
}

/// Builds the topic of a measurement.
pub fn publish_topic(serial: &str, kind: &str) -> (topic: String)
    ensures
        topic@ == topic_of(serial@, kind@),
{
    let mut topic = String::from_str("inverter/");
    topic.append(serial);
    topic.append("/");
    topic.append(kind);
    topic
}

/// Builds the payload of a measurement.
pub fn publish_payload(raw: &str, unit: &Option<String>) -> (payload: String)
    ensures
        payload@ == payload_of(raw@, crate::reading::text_of(*unit)),
{
    let mut line = String::from_str(raw);
    line.append(" ");
    match unit {
        Some(u) => {
            line.append(u.as_str());
        },
        None => {
        },
    }
    trim(line.as_str())
}

/// Translates a sample for the broker.
pub fn publish_message(serial: &str, sample: &MeasurementSample) -> (message: Option<
    PublishMessage,
>)
    ensures
        message is Some == message_of(serial@, sample@) is Some,
        message matches Some(m) ==> Some(m@) == message_of(serial@, sample@),
{
    match &sample.raw_value {
        Some(raw) => Some(
            PublishMessage {
                topic: publish_topic(serial, sample.kind.as_str()),
                payload: publish_payload(raw.as_str(), &sample.unit),
                delivery: Delivery::AtLeastOnce,
                retain: false,
            },
        ),
        None => None,
    }
}

/// Translates a sample for the time-series database.
pub fn data_point(serial: &str, sample: &MeasurementSample) -> (point: Option<DataPoint>)
    ensures
        point is Some == point_of(serial@, sample@) is Some,
        point matches Some(p) ==> Some(p@) == point_of(serial@, sample@),
{
    match &sample.raw_value {
        Some(raw) => {
            if parses_as_float(raw.as_str()) {
                let mut tags: Vec<Tag> = Vec::new();
                tags.push(Tag { key: String::from_str("serial"), value: String::from_str(serial) });
                tags.push(Tag { key: String::from_str("type"), value: sample.kind.clone() });
                match &sample.unit {
                    Some(u) => {
                        tags.push(Tag { key: String::from_str("unit"), value: u.clone() });
                    },
                    None => {},
                }
                assert(tags_view(tags@) =~= tags_of(serial@, sample@.kind, sample@.unit));
                Some(
                    DataPoint {
                        measurement: String::from_str("inverter_data"),
                        tags,
                        field: String::from_str("value"),
                        value: raw.clone(),
                    },
                )
            } else {
                None
            }
        },
        None => None,
    }
}

/// The mathematical values of a list of messages, in its order.
pub open spec fn messages_view(messages: Seq<PublishMessage>) -> Seq<MessageView> {
    Seq::new(messages.len(), |i: int| messages[i]@)
}

/// The mathematical values of a list of points, in its order.
pub open spec fn points_view(points: Seq<DataPoint>) -> Seq<PointView> {
    Seq::new(points.len(), |i: int| points[i]@)
}

/// The messages of a list of samples: one for each sample that has a value,
/// in the samples' order.
pub open spec fn messages_of(serial: Seq<char>, samples: Seq<SampleView>) -> Seq<MessageView>
    decreases samples.len(),
{
    if samples.len() == 0 {
        Seq::empty()
    } else {
        let before = messages_of(serial, samples.drop_last());
        match message_of(serial, samples.last()) {
            Some(m) => before.push(m),
            None => before,
        }
    }
}

/// The points of a list of samples: one for each sample whose value denotes a
/// number, in the samples' order.
pub open spec fn points_of(serial: Seq<char>, samples: Seq<SampleView>) -> Seq<PointView>
    decreases samples.len(),
{
    if samples.len() == 0 {
        Seq::empty()
    } else {
        let before = points_of(serial, samples.drop_last());
        match point_of(serial, samples.last()) {
            Some(p) => before.push(p),
            None => before,
        }
    }
}

/// All messages that a reading gives the broker.
pub fn publish_messages(reading: &DeviceReading) -> (out: Vec<PublishMessage>)
    ensures
        messages_view(out@) == messages_of(reading@.serial, reading@.samples),
{
    let serial = reading.serial();
    let samples = reading.samples();
    let ghost all = samples_view(samples@);
    let mut out: Vec<PublishMessage> = Vec::new();
    let mut i: usize = 0;
    while i < samples.len()
        invariant
            i <= samples.len(),
            all == samples_view(samples@),
            messages_view(out@) =~= messages_of(serial@, all.take(i as int)),
        decreases samples.len() - i,
    {
        assert(all.take(i + 1).drop_last() =~= all.take(i as int));
        match publish_message(serial, &samples[i]) {
            Some(m) => {
                out.push(m);
            },
            None => {},
        }
        i = i + 1;
    }
    assert(all.take(samples.len() as int) =~= all);
    out
}

/// All points that a reading gives the time-series database.
pub fn batch_points(reading: &DeviceReading) -> (out: Vec<DataPoint>)
    ensures
        points_view(out@) == points_of(reading@.serial, reading@.samples),
{
    let serial = reading.serial();
    let samples = reading.samples();
    let ghost all = samples_view(samples@);
    let mut out: Vec<DataPoint> = Vec::new();
    let mut i: usize = 0;
    while i < samples.len()
        invariant
            i <= samples.len(),
            all == samples_view(samples@),
            points_view(out@) =~= points_of(serial@, all.take(i as int)),
        decreases samples.len() - i,
    {
        assert(all.take(i + 1).drop_last() =~= all.take(i as int));
        match data_point(serial, &samples[i]) {
            Some(p) => {
                out.push(p);
            },
            None => {},
        }
        i = i + 1;
    }
    assert(all.take(samples.len() as int) =~= all);
    out
}

/// A sample without a value reaches neither sink.
pub proof fn lemma_no_value_no_output(serial: Seq<char>, sample: SampleView)
    requires
        sample.raw_value is None,
    ensures
        message_of(serial, sample) is None,
        point_of(serial, sample) is None,
{
}

/// A value that denotes no number is left out for the time-series database
/// and still published: under the sample's topic, with the payload made of
/// the value as it stands and the unit.
pub proof fn lemma_text_value_is_published(serial: Seq<char>, sample: SampleView)
    requires
        sample.raw_value is Some,
        !is_float_text(sample.raw_value->0),
    ensures
        point_of(serial, sample) is None,
        message_of(serial, sample) is Some,
        message_of(serial, sample)->0.topic == topic_of(serial, sample.kind),
        message_of(serial, sample)->0.payload == payload_of(sample.raw_value->0, sample.unit),
{
}

/// The payload starts with the value, character for character, where the
/// value neither starts nor ends with white space; without a unit it is the
/// value and nothing more.
pub proof fn lemma_payload_starts_with_value(raw: Seq<char>, unit: Option<Seq<char>>)
    requires
        raw.len() > 0,
        !is_white_space(raw[0]),
        !is_white_space(raw.last()),
    ensures
        payload_of(raw, unit).len() >= raw.len(),
        payload_of(raw, unit).take(raw.len() as int) == raw,
        unit is None ==> payload_of(raw, unit) == raw,
{
    let line = raw + " "@ + unit_text(unit);
    lemma_trim_end_keeps_prefix(line, raw.len() - 1);
    if unit is None {
        reveal_strlit(" ");
        assert(line.drop_last() =~= raw);
        assert(trim_end(raw) == raw);
    }
}

/// No sink gets more than one item for a sample.
pub proof fn lemma_fan_out_bounds(serial: Seq<char>, samples: Seq<SampleView>)
    ensures
        messages_of(serial, samples).len() <= samples.len(),
        points_of(serial, samples).len() <= messages_of(serial, samples).len(),
    decreases samples.len(),
{
    if samples.len() > 0 {
        lemma_fan_out_bounds(serial, samples.drop_last());
    }
}

} // verus!
