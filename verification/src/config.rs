//! Configuration for FIX sessions.
use vstd::prelude::*;

use crate::calendar::{LocalTime, TimeZone, Weekday};

verus! {

/// The configuration for multiple sessions.
#[derive(Clone, Debug)]
pub struct Config {
    pub sessions: Vec<SessionConfig>,
}

/// TLS encryption details with configurable trust store.
#[derive(Clone, Debug, PartialEq, Eq)]
pub enum TlsConfig {
    /// Use a custom CA certificate file (PEM format).
    File { ca_certificate_path: String },
    /// Use the operating system's native certificate store.
    Native,
    /// Use Mozilla's bundled root certificates.
    Webpki,
}

/// Session schedule configuration.
#[derive(Clone, Debug, PartialEq, Eq)]
pub struct ScheduleConfig {
    pub start_time: Option<LocalTime>,
    pub end_time: Option<LocalTime>,
    pub start_day: Option<Weekday>,
    pub end_day: Option<Weekday>,
    pub weekdays: Vec<Weekday>,
    pub timezone: Option<TimeZone>,
}

/// Seconds between reconnection attempts when the configuration names none.
pub fn default_reconnect_interval() -> (r: u64)
    ensures
        r == 30,
{
    30
}

/// Seconds we wait for the peer's Logon when the configuration names none.
pub fn default_logon_timeout() -> (r: u64)
    ensures
        r == 10,
{
    10
}

/// Seconds we wait for the peer's Logout when the configuration names none.
pub fn default_logout_timeout() -> (r: u64)
    ensures
        r == 2,
{
    2
}

/// The configuration of a single FIX session.
#[derive(Clone, Debug)]
pub struct SessionConfig {
    /// The begin string specifying the FIX version.
    pub begin_string: String,
    /// The sender's comp ID.
    pub sender_comp_id: String,
    /// The target's comp ID.
    pub target_comp_id: String,
    /// The path to the data dictionary to use.
    pub data_dictionary_path: Option<String>,
    /// The host to connect to.
    pub connection_host: String,
    /// The port to use to connect.
    pub connection_port: u16,
    /// The TLS configuration for the session, if TLS is used.
    pub tls_config: Option<TlsConfig>,
    /// The heartbeat interval to agree on with the peer in seconds.
    pub heartbeat_interval: u64,
    /// The time we wait in seconds for Logon responses before timing out.
    pub logon_timeout: u64,
    /// The time we wait in seconds for Logout responses before timing out.
    pub logout_timeout: u64,
    /// The interval we should attempt to reconnect at in seconds.
    pub reconnect_interval: u64,
    /// Whether we reset the state of the message store on logon.
    pub reset_on_logon: bool,
    /// The schedule configuration for the session.
    pub schedule: Option<ScheduleConfig>,
}

} // verus!
