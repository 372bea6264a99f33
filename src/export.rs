//! Settings, errors and log levels of the exporter that drives the clients.
use vstd::prelude::*;
use vstd::string::StringExecFns;

verus! {

broadcast use vstd::string::group_string_axioms;

/// The exporter's settings.
pub struct Config {
    pub log_level: String,
    pub api_port: u16,
    pub api_listen_address: String,
    pub metrics_port: u16,
    pub metrics_listen_address: String,
    pub eloverblik_refresh_token: String,
}

/// What a run of the exporter can fail with, each with its message.
#[derive(Debug)]
pub enum Error {
    Any(String),
    RequestError(String),
    SerdeJsonError(String),
    ElOverblikClientError(String),
    ConfigError(String),
}

/// A store that writes each document to a file under `path`.
pub struct FsStore {
    pub path: String,
}

/// How much the exporter logs.
#[derive(Debug, Clone, Copy, PartialEq, Eq, Structural)]
pub enum LogLevel {
    Trace,
    Debug,
    Info,
    Warn,
    Error,
}

/// The upper-case form of a string, as `str::to_uppercase` gives it.
pub uninterp spec fn uppercase_of(s: Seq<char>) -> Seq<char>;

/// Relies on `str::to_uppercase`: the result depends on the characters alone.
#[verifier::external_body]
fn uppercase(s: &str) -> (r: String)
    ensures
        r@ == uppercase_of(s@),
{
    s.to_uppercase()
}

/// The level an upper-case name stands for.
pub open spec fn level_named(s: Seq<char>) -> Option<LogLevel> {
    if s == "TRACE"@ {
        Some(LogLevel::Trace)
    } else if s == "DEBUG"@ {
        Some(LogLevel::Debug)
    } else if s == "INFO"@ {
        Some(LogLevel::Info)
    } else if s == "WARN"@ {
        Some(LogLevel::Warn)
    } else if s == "ERROR"@ {
        Some(LogLevel::Error)
    } else {
        None
    }
}

/// The level named by an upper-case name, `None` for any other text.
pub fn level_of_upper(name: &String) -> (r: Option<LogLevel>)
    ensures
        r == level_named(name@),
{
    if *name == String::from_str("TRACE") {
        Some(LogLevel::Trace)
    } else if *name == String::from_str("DEBUG") {
        Some(LogLevel::Debug)
    } else if *name == String::from_str("INFO") {
        Some(LogLevel::Info)
    } else if *name == String::from_str("WARN") {
        Some(LogLevel::Warn)
    } else if *name == String::from_str("ERROR") {
        Some(LogLevel::Error)
    } else {
        None
    }
}

/// The level a configured name stands for, in any letter case.
pub fn get_trace_level(input: &str) -> (r: Option<LogLevel>)
    ensures
        r == level_named(uppercase_of(input@)),
{
    let upper = uppercase(input);
    level_of_upper(&upper)
}

} // verus!
