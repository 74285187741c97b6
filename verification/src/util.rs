//! Severity mapping: log levels to MozLog and GCP numeric severity codes.

use vstd::prelude::*;

verus! {

/// The closed set of log levels an event can carry.
#[derive(Clone, Copy, PartialEq, Eq, Structural, Debug)]
pub enum Level {
    Critical,
    Error,
    Warning,
    Info,
    Debug,
    Trace,
}

/// MozLog severity code (0–7 scale) for a level.
pub open spec fn spec_severity(level: Level) -> u8 {
    match level {
        Level::Critical => 2,
        Level::Error => 3,
        Level::Warning => 4,
        Level::Info => 6,
        Level::Debug => 7,
        Level::Trace => 7,
    }
}

/// GCP severity code (0–800 scale) for a level.
pub open spec fn spec_gcp_severity(level: Level) -> u16 {
    match level {
        Level::Critical => 600,
        Level::Error => 500,
        Level::Warning => 400,
        Level::Info => 200,
        Level::Debug => 100,
        Level::Trace => 100,
    }
}

/// Maps a level to its MozLog severity code.
pub fn level_to_severity(level: Level) -> (r: u8)
    ensures
        r == spec_severity(level),
{
    match level {
        Level::Critical => 2,
        Level::Error => 3,
        Level::Warning => 4,
        Level::Info => 6,
        Level::Debug | Level::Trace => 7,
    }
}

/// Maps a level to its GCP severity code.
pub fn level_to_gcp_severity(level: Level) -> (r: u16)
    ensures
        r == spec_gcp_severity(level),
{
    match level {
        Level::Critical => 600,
        Level::Error => 500,
        Level::Warning => 400,
        Level::Info => 200,
        Level::Debug | Level::Trace => 100,
    }
}

/// Both severity mappings are total over the level enumeration and return
/// exactly the published table values.
pub proof fn lemma_severity_table()
    ensures
        spec_severity(Level::Critical) == 2,
        spec_severity(Level::Error) == 3,
        spec_severity(Level::Warning) == 4,
        spec_severity(Level::Info) == 6,
        spec_severity(Level::Debug) == 7,
        spec_severity(Level::Trace) == 7,
        spec_gcp_severity(Level::Critical) == 600,
        spec_gcp_severity(Level::Error) == 500,
        spec_gcp_severity(Level::Warning) == 400,
        spec_gcp_severity(Level::Info) == 200,
        spec_gcp_severity(Level::Debug) == 100,
        spec_gcp_severity(Level::Trace) == 100,
{
}

} // verus!
