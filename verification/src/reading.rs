//! What one poll of the inverter yields: the device's identity and its
//! measurements, in the order of the document.

use vstd::prelude::*;

verus! {

/// The mathematical value of an optional text.
pub open spec fn text_of(s: Option<String>) -> Option<Seq<char>> {
    match s {
        Some(t) => Some(t@),
        None => None,
    }
}

/// A copy of an optional text.
fn copy_text(s: &Option<String>) -> (r: Option<String>)
    ensures
        text_of(r) == text_of(*s),
{
    match s {
        Some(t) => Some(t.clone()),
        None => None,
    }
}

/// The mathematical value of a [`MeasurementSample`].
pub struct SampleView {
    pub kind: Seq<char>,
    pub raw_value: Option<Seq<char>>,
    pub unit: Option<Seq<char>>,
}

/// One measurement of the device: what is measured, the value as the device
/// wrote it, and the unit. A sample without a value is a sensor that has none
/// at the moment.
#[derive(Debug, PartialEq, Eq)]
pub struct MeasurementSample {
    pub kind: String,
    pub raw_value: Option<String>,
    pub unit: Option<String>,
}

impl View for MeasurementSample {
    type V = SampleView;

    open spec fn view(&self) -> SampleView {
        SampleView {
            kind: self.kind@,
            raw_value: text_of(self.raw_value),
            unit: text_of(self.unit),
        }
    }
}

impl Clone for MeasurementSample {
    fn clone(&self) -> (r: Self)
        ensures
            r@ == self@,
    {
        MeasurementSample {
            kind: self.kind.clone(),
            raw_value: copy_text(&self.raw_value),
            unit: copy_text(&self.unit),
        }
    }
}

/// The mathematical values of a list of samples, in its order.
pub open spec fn samples_view(samples: Seq<MeasurementSample>) -> Seq<SampleView> {
    Seq::new(samples.len(), |i: int| samples[i]@)
}

/// The mathematical value of a [`DeviceReading`].
pub struct ReadingView {
    pub name: Seq<char>,
    pub serial: Seq<char>,
    pub samples: Seq<SampleView>,
}

impl ReadingView {
    /// A reading names its device: neither the name nor the serial is empty.
    pub open spec fn wf(self) -> bool {
        self.name.len() > 0 && self.serial.len() > 0
    }
}

/// The device's identity and its samples, as one document gave them.
#[derive(Debug, PartialEq, Eq)]
pub struct DeviceReading {
    name: String,
    serial: String,
    samples: Vec<MeasurementSample>,
}

impl View for DeviceReading {
    type V = ReadingView;

    closed spec fn view(&self) -> ReadingView {
        ReadingView {
            name: self.name@,
            serial: self.serial@,
            samples: samples_view(self.samples@),
        }
    }
}

impl DeviceReading {
    #[verifier::type_invariant]
    spec fn identified(self) -> bool {
        self@.wf()
    }

    /// A reading of the device `name` with the serial number `serial`; none
    /// where one of the two is empty.
    pub fn new(name: String, serial: String, samples: Vec<MeasurementSample>) -> (r: Option<Self>)
        ensures
            r is Some <==> name@.len() > 0 && serial@.len() > 0,
            r matches Some(reading) ==> reading@ == (ReadingView {
                name: name@,
                serial: serial@,
                samples: samples_view(samples@),
            }),
    {
        if name.as_str().is_empty() || serial.as_str().is_empty() {
            None
        } else {
            Some(DeviceReading { name, serial, samples })
        }
    }

    /// The device's name, which is never empty.
    pub fn name(&self) -> (r: &str)
        ensures
            r@ == self@.name,
            self@.wf(),
    {
        proof {
            use_type_invariant(self);
        }
        self.name.as_str()
    }

    /// The device's serial number, which is never empty.
    pub fn serial(&self) -> (r: &str)
        ensures
            r@ == self@.serial,
            self@.wf(),
    {
        proof {
            use_type_invariant(self);
        }
        self.serial.as_str()
    }

    /// The samples, in the order of the document.
    pub fn samples(&self) -> (r: &Vec<MeasurementSample>)
        ensures
            samples_view(r@) == self@.samples,
    {
        &self.samples
    }
}

} // verus!
