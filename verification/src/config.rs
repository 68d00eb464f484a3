//! What the operator configures: the inverter's address, the pace of the
//! polls, the limit of consecutive errors, and the two sinks, each of which
//! may be left out.

use vstd::prelude::*;

verus! {

/// The mathematical value of a [`MqttConfig`].
pub struct MqttView {
    pub broker: Seq<char>,
    pub port: u16,
    pub client_id: Seq<char>,
}

/// Where the broker is, and under which name to connect to it.
#[derive(Debug, PartialEq, Eq)]
pub struct MqttConfig {
    pub broker: String,
    pub port: u16,
    pub client_id: String,
}

impl View for MqttConfig {
    type V = MqttView;

    open spec fn view(&self) -> MqttView {
        MqttView { broker: self.broker@, port: self.port, client_id: self.client_id@ }
    }
}

/// The mathematical value of an [`InfluxDbConfig`].
pub struct InfluxDbView {
    pub url: Seq<char>,
    pub token: Seq<char>,
    pub org: Seq<char>,
    pub bucket: Seq<char>,
}

/// Where the time-series database is, and where in it the points go.
#[derive(Debug, PartialEq, Eq)]
pub struct InfluxDbConfig {
    pub url: String,
    pub token: String,
    pub org: String,
    pub bucket: String,
}

impl View for InfluxDbConfig {
    type V = InfluxDbView;

    open spec fn view(&self) -> InfluxDbView {
        InfluxDbView { url: self.url@, token: self.token@, org: self.org@, bucket: self.bucket@ }
    }
}

/// The mathematical value of a [`Config`].
pub struct ConfigView {
    pub inverter_url: Seq<char>,
    pub poll_interval_secs: u64,
    pub max_errors: u32,
    pub quiet_mode: Option<bool>,
    pub mqtt: Option<MqttView>,
    pub influxdb: Option<InfluxDbView>,
}

impl ConfigView {
    /// At least one sink is configured.
    pub open spec fn has_sink(self) -> bool {
        self.mqtt is Some || self.influxdb is Some
    }
}

/// The whole configuration. A sink whose section is missing is switched off
/// for good.
#[derive(Debug, PartialEq, Eq)]
pub struct Config {
    pub inverter_url: String,
    pub poll_interval_secs: u64,
    pub max_errors: u32,
    pub quiet_mode: Option<bool>,
    pub mqtt: Option<MqttConfig>,
    pub influxdb: Option<InfluxDbConfig>,
}

impl View for Config {
    type V = ConfigView;

    open spec fn view(&self) -> ConfigView {
        ConfigView {
            inverter_url: self.inverter_url@,
            poll_interval_secs: self.poll_interval_secs,
            max_errors: self.max_errors,
            quiet_mode: self.quiet_mode,
            mqtt: match self.mqtt {
                Some(m) => Some(m@),
                None => None,
            },
            influxdb: match self.influxdb {
                Some(i) => Some(i@),
                None => None,
            },
        }
    }
}

/// Why a configuration cannot be run.
#[derive(Debug, Clone, Copy, PartialEq, Eq, Structural)]
pub enum ConfigError {
    /// Neither sink is configured: there is nowhere to send a reading.
    NoSink,
}

impl Config {
    /// Whether informational output is switched off; it is on unless the
    /// configuration says otherwise.
    pub fn quiet(&self) -> (r: bool)
        ensures
            r == (self@.quiet_mode == Some(true)),
    {
        match self.quiet_mode {
            Some(quiet) => quiet,
            None => false,
        }
    }

    /// Accepts a configuration that has at least one sink.
    pub fn validate(&self) -> (r: Result<(), ConfigError>)
        ensures
            r is Ok <==> self@.has_sink(),
            r is Err ==> r == Err::<(), ConfigError>(ConfigError::NoSink),
    {
        if self.mqtt.is_none() && self.influxdb.is_none() {
            Err(ConfigError::NoSink)
        } else {
            Ok(())
        }
    }
}

} // verus!
