//! The settings of the collector and what is made of them.
//!
//! The settings hold, as plain values, what was read from the configuration:
//! each value is there or missing. From them the places to listen on, the
//! message bus and the snapshot of the view are configured.

use crate::text::{decimal, push_char, push_decimal, push_text};
use vstd::prelude::*;

verus! {

/// An address to listen on or to connect to, as text: an IPv4 or IPv6
/// address as it is written, or a host name.
#[derive(Clone, Debug)]
pub enum HostAddress {
    Ipv4(String),
    Ipv6(String),
    Name(String),
}

/// What was read from the configuration.
#[derive(Clone, Debug)]
pub struct Settings {
    pub api_address: Option<HostAddress>,
    pub api_port: Option<i64>,
    pub bmp_address: Option<HostAddress>,
    pub bmp_port: Option<i64>,
    pub kafka_enable: Option<bool>,
    pub kafka_address: Option<HostAddress>,
    pub kafka_port: Option<i64>,
    pub kafka_topic: Option<String>,
    pub kafka_batch_max_size: Option<i64>,
    pub kafka_batch_interval: Option<i64>,
    pub state_enable: Option<bool>,
    pub state_path: Option<String>,
    pub state_save_interval: Option<i64>,
}

/// The settings by name.
#[derive(Clone, Copy, Debug, PartialEq, Eq, Structural)]
pub enum SettingKey {
    ApiAddress,
    ApiPort,
    BmpAddress,
    BmpPort,
    KafkaAddress,
    KafkaPort,
    KafkaTopic,
    StateEnable,
    StatePath,
    StateSaveInterval,
}

/// Why the settings do not configure something.
#[derive(Clone, Copy, Debug, PartialEq, Eq, Structural)]
pub enum SettingsError {
    /// A setting that is needed is missing.
    Missing(SettingKey),
}

/// Where the status endpoint listens.
#[derive(Clone, Debug)]
pub struct APIConfig {
    pub host: String,
}

/// Where the collector listens for routers.
#[derive(Clone, Debug)]
pub struct BMPConfig {
    pub host: String,
}

/// Where and how updates are published.
#[derive(Clone, Debug)]
pub struct KafkaConfig {
    pub host: String,
    pub topic: String,
    pub batch_max_size: u64,
    pub batch_interval: u64,
}

/// Whether, where and how often the view is saved.
#[derive(Clone, Debug)]
pub struct StateConfig {
    pub enable: bool,
    pub path: String,
    pub interval: u64,
}

/// One message for the bus: where to send it and what it holds.
#[derive(Clone, Debug)]
pub struct KafkaRequest {
    pub brokers: Vec<String>,
    pub topic: String,
    pub payload: Vec<u8>,
}

impl HostAddress {
    /// The address as it is written before a port: an IPv6 address in square
    /// brackets, anything else as it is.
    pub open spec fn text(self) -> Seq<char> {
        match self {
            HostAddress::Ipv4(a) => a@,
            HostAddress::Ipv6(a) => seq!['['] + a@ + seq![']'],
            HostAddress::Name(a) => a@,
        }
    }
}

/// An address and a port as one text: the address, a colon, the port in
/// decimal.
pub open spec fn host_text(address: HostAddress, port: i64) -> Seq<char> {
    address.text() + seq![':'] + decimal(port as int)
}

/// Writes an address and a port as one text. A host name is written only
/// where `accept_fqdn` allows it.
pub fn host(address: &HostAddress, port: i64, accept_fqdn: bool) -> (r: String)
    requires
        accept_fqdn || !(*address is Name),
    ensures
        r@ == host_text(*address, port),
{
    let mut out = String::new();
    match address {
        HostAddress::Ipv4(a) => {
            push_text(&mut out, a.as_str());
        },
        HostAddress::Ipv6(a) => {
            push_char(&mut out, '[');
            push_text(&mut out, a.as_str());
            push_char(&mut out, ']');
        },
        HostAddress::Name(a) => {
            push_text(&mut out, a.as_str());
        },
    }
    assert(out@ =~= address.text());
    push_char(&mut out, ':');
    push_decimal(&mut out, port);
    assert(out@ =~= host_text(*address, port));
    out
}

/// The verdict on a pair of settings that make up a place: the first that is
/// missing, or both.
pub open spec fn place_of(
    address: Option<HostAddress>,
    port: Option<i64>,
    address_key: SettingKey,
    port_key: SettingKey,
) -> Result<(HostAddress, i64), SettingsError> {
    match (address, port) {
        (None, _) => Err(SettingsError::Missing(address_key)),
        (Some(_), None) => Err(SettingsError::Missing(port_key)),
        (Some(a), Some(p)) => Ok((a, p)),
    }
}

/// Where the status endpoint listens: the address and port of the settings
/// as one text. A host name is not accepted there.
pub fn get_api_config(settings: &Settings) -> (r: Result<APIConfig, SettingsError>)
    requires
        settings.api_address matches Some(a) ==> !(a is Name),
    ensures
        match place_of(
            settings.api_address,
            settings.api_port,
            SettingKey::ApiAddress,
            SettingKey::ApiPort,
        ) {
            Ok(place) => r matches Ok(c) && c.host@ == host_text(place.0, place.1),
            Err(e) => r == Err::<APIConfig, SettingsError>(e),
        },
{
    match &settings.api_address {
        None => Err(SettingsError::Missing(SettingKey::ApiAddress)),
        Some(address) => match settings.api_port {
            None => Err(SettingsError::Missing(SettingKey::ApiPort)),
            Some(port) => Ok(APIConfig { host: host(address, port, false) }),
        },
    }
}

/// Where the collector listens for routers: the address and port of the
/// settings as one text.
pub fn get_bmp_config(settings: &Settings) -> (r: Result<BMPConfig, SettingsError>)
    ensures
        match place_of(
            settings.bmp_address,
            settings.bmp_port,
            SettingKey::BmpAddress,
            SettingKey::BmpPort,
        ) {
            Ok(place) => r matches Ok(c) && c.host@ == host_text(place.0, place.1),
            Err(e) => r == Err::<BMPConfig, SettingsError>(e),
        },
{
    match &settings.bmp_address {
        None => Err(SettingsError::Missing(SettingKey::BmpAddress)),
        Some(address) => match settings.bmp_port {
            None => Err(SettingsError::Missing(SettingKey::BmpPort)),
            Some(port) => Ok(BMPConfig { host: host(address, port, true) }),
        },
    }
}

/// A setting that counts something: where it is missing, `default`; where it
/// is negative, the number that its bits spell.
pub open spec fn count_or(value: Option<i64>, default: u64) -> u64 {
    match value {
        Some(v) => v as u64,
        None => default,
    }
}

/// Where and how updates are published. The largest batch is 100 and the
/// interval 1 where the settings give none.
pub fn get_kafka_config(settings: &Settings) -> (r: Result<KafkaConfig, SettingsError>)
    ensures
        match place_of(
            settings.kafka_address,
            settings.kafka_port,
            SettingKey::KafkaAddress,
            SettingKey::KafkaPort,
        ) {
            Ok(place) => match settings.kafka_topic {
                Some(topic) => r matches Ok(c) && c.host@ == host_text(place.0, place.1) && c.topic@
                    == topic@ && c.batch_max_size == count_or(settings.kafka_batch_max_size, 100)
                    && c.batch_interval == count_or(settings.kafka_batch_interval, 1),
                None => r == Err::<KafkaConfig, SettingsError>(
                    SettingsError::Missing(SettingKey::KafkaTopic),
                ),
            },
            Err(e) => r == Err::<KafkaConfig, SettingsError>(e),
        },
{
    match &settings.kafka_address {
        None => Err(SettingsError::Missing(SettingKey::KafkaAddress)),
        Some(address) => match settings.kafka_port {
            None => Err(SettingsError::Missing(SettingKey::KafkaPort)),
            Some(port) => match &settings.kafka_topic {
                None => Err(SettingsError::Missing(SettingKey::KafkaTopic)),
                Some(topic) => Ok(
                    KafkaConfig {
                        host: host(address, port, true),
                        topic: topic.clone(),
                        batch_max_size: match settings.kafka_batch_max_size {
                            Some(v) => v as u64,
                            None => 100,
                        },
                        batch_interval: match settings.kafka_batch_interval {
                            Some(v) => v as u64,
                            None => 1,
                        },
                    },
                ),
            },
        },
    }
}

/// Whether, where and how often the view is saved, as the settings say.
pub fn get_state_config(settings: &Settings) -> (r: Result<StateConfig, SettingsError>)
    ensures
        match (settings.state_enable, settings.state_path, settings.state_save_interval) {
            (None, _, _) => r == Err::<StateConfig, SettingsError>(
                SettingsError::Missing(SettingKey::StateEnable),
            ),
            (Some(_), None, _) => r == Err::<StateConfig, SettingsError>(
                SettingsError::Missing(SettingKey::StatePath),
            ),
            (Some(_), Some(_), None) => r == Err::<StateConfig, SettingsError>(
                SettingsError::Missing(SettingKey::StateSaveInterval),
            ),
            (Some(enable), Some(path), Some(interval)) => r matches Ok(c) && c.enable == enable
                && c.path@ == path@ && c.interval == interval as u64,
        },
{
    match settings.state_enable {
        None => Err(SettingsError::Missing(SettingKey::StateEnable)),
        Some(enable) => match &settings.state_path {
            None => Err(SettingsError::Missing(SettingKey::StatePath)),
            Some(path) => match settings.state_save_interval {
                None => Err(SettingsError::Missing(SettingKey::StateSaveInterval)),
                Some(interval) => Ok(
                    StateConfig { enable, path: path.clone(), interval: interval as u64 },
                ),
            },
        },
    }
}

/// Whether the settings switch publishing on. It is off where they do not
/// say.
pub open spec fn kafka_enabled(settings: Settings) -> bool {
    settings.kafka_enable == Some(true)
}

/// Whether the settings switch publishing on.
pub fn is_kafka_enabled(settings: &Settings) -> (r: bool)
    ensures
        r == kafka_enabled(*settings),
{
    match settings.kafka_enable {
        Some(enable) => enable,
        None => false,
    }
}

/// Prepares the publishing of `data`. Nothing is to be sent where publishing
/// is off. Else one message is to be sent: `data`, to the topic of the
/// settings, through the one broker that they name.
pub fn send_to_kafka(settings: &Settings, data: &[u8]) -> (r: Result<
    Option<KafkaRequest>,
    SettingsError,
>)
    ensures
        !kafka_enabled(*settings) ==> r matches Ok(None),
        kafka_enabled(*settings) ==> match place_of(
            settings.kafka_address,
            settings.kafka_port,
            SettingKey::KafkaAddress,
            SettingKey::KafkaPort,
        ) {
            Ok(place) => match settings.kafka_topic {
                Some(topic) => r matches Ok(Some(request)) && request.brokers@.len() == 1
                    && request.brokers@[0]@ == host_text(place.0, place.1) && request.topic@
                    == topic@ && request.payload@ == data@,
                None => r matches Err(SettingsError::Missing(SettingKey::KafkaTopic)),
            },
            Err(e) => r matches Err(f) && f == e,
        },
{
    if !is_kafka_enabled(settings) {
        return Ok(None);
    }
    match get_kafka_config(settings) {
        Err(e) => Err(e),
        Ok(config) => {
            let mut brokers: Vec<String> = Vec::new();
            brokers.push(config.host);
            let mut payload: Vec<u8> = Vec::new();
            let mut i: usize = 0;
            while i < data.len()
                invariant
                    i <= data@.len(),
                    payload@ == data@.take(i as int),
                decreases data@.len() - i,
            {
                payload.push(data[i]);
                assert(data@.take(i as int).push(data@[i as int]) =~= data@.take(i + 1));
                i += 1;
            }
            assert(data@.take(data@.len() as int) =~= data@);
            Ok(Some(KafkaRequest { brokers, topic: config.topic, payload }))
        },
    }
}

} // verus!
