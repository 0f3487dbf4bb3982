//! A small system-monitoring library: it models one complete sample of host
//! resource state (CPU, memory, disks, networks) as an immutable snapshot,
//! keeps the latest snapshot in a collector that readers may consult at any
//! time, and renders the snapshot both as Prometheus-style exposition text and
//! as JSON. Probing the host, serving HTTP and drawing to a terminal are left
//! to an unverified shell around this crate; everything here is pure logic
//! over plain values.
use vstd::prelude::*;

pub mod collector;
pub mod display;
pub mod gauges;
pub mod json;
pub mod net;
pub mod service;
pub mod snapshot;
pub mod text;

verus! {

/// Failure kinds reported by sampling, the collector and the service layer.
#[derive(Debug)]
pub enum SystemInfoError {
    CpuError,
    MemoryError,
    TemperatureError,
    DiskError,
    NetworkError,
    IoError(String),
    ServiceError(String),
    /// A read of the current snapshot happened before the first successful
    /// refresh: "no data yet", not a fault.
    NotYetPopulated,
}

/// The human-readable message of each error kind.
pub open spec fn spec_error_message(e: SystemInfoError) -> Seq<char> {
    match e {
        SystemInfoError::CpuError => "Failed to get CPU information"@,
        SystemInfoError::MemoryError => "Failed to get memory information"@,
        SystemInfoError::TemperatureError => "Failed to get temperature information"@,
        SystemInfoError::DiskError => "Failed to get disk information"@,
        SystemInfoError::NetworkError => "Failed to get network information"@,
        SystemInfoError::IoError(m) => "I/O error: "@ + m@,
        SystemInfoError::ServiceError(m) => "Service error: "@ + m@,
        SystemInfoError::NotYetPopulated => "No snapshot collected yet"@,
    }
}

impl SystemInfoError {
    /// The error rendered as text, for logging and for HTTP error bodies.
    pub fn message(&self) -> (s: String)
        ensures
            s@ == spec_error_message(*self),
    {
        match self {
            SystemInfoError::CpuError => String::from_str("Failed to get CPU information"),
            SystemInfoError::MemoryError => String::from_str("Failed to get memory information"),
            SystemInfoError::TemperatureError => String::from_str(
                "Failed to get temperature information",
            ),
            SystemInfoError::DiskError => String::from_str("Failed to get disk information"),
            SystemInfoError::NetworkError => String::from_str("Failed to get network information"),
            SystemInfoError::IoError(m) => String::from_str("I/O error: ").concat(m.as_str()),
            SystemInfoError::ServiceError(m) => String::from_str("Service error: ").concat(
                m.as_str(),
            ),
            SystemInfoError::NotYetPopulated => String::from_str("No snapshot collected yet"),
        }
    }
}

} // verus!
