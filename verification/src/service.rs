//! The exposition service's decision layer: one state value holding the
//! collector and the gauge set, and the response computation of each of the
//! three routes. The unverified shell binds the listener, routes requests
//! here, runs the background refresh loop on the configured interval, and
//! performs the actual sampling; every response body and status code is
//! computed by the functions in this module.
use vstd::prelude::*;
use crate::collector::Collector;
use crate::gauges::{spec_render_gauges, GaugeSet};
use crate::json::{spec_snapshot_json, snapshot_json};
use crate::snapshot::{snapshot_wf, SystemInfo};
use crate::spec_error_message;
use crate::SystemInfoError;

verus! {

/// Everything the service shares between its routes and its background
/// refresher.
pub struct ServiceState {
    pub collector: Collector,
    pub gauges: GaugeSet,
}

impl ServiceState {
    pub open spec fn wf(self) -> bool {
        self.collector.wf()
    }

    /// The service as it starts: nothing sampled, gauges zero.
    pub fn new(update_interval_ms: u64) -> (st: ServiceState)
        ensures
            st.wf(),
            st.collector.spec_current() is None,
            st.collector.history().len() == 0,
            st.collector.spec_interval_ms() == update_interval_ms,
            st.gauges.cpu_usage == 0,
            st.gauges.memory_used == 0,
            st.gauges.memory_total == 0,
    {
        ServiceState { collector: Collector::new(update_interval_ms), gauges: GaugeSet::new() }
    }

    /// The scrape route: renders the cached gauge set. Always succeeds,
    /// whether or not anything has been sampled yet.
    pub fn handle_metrics(&self) -> (r: (u16, String))
        ensures
            r.0 == 200,
            r.1@ == spec_render_gauges(self.gauges),
    {
        (200, self.gauges.render())
    }

    /// The liveness route: a fixed answer that never depends on collector
    /// state, so a degraded sampler cannot fail liveness.
    pub fn handle_health(&self) -> (r: (u16, String))
        ensures
            r.0 == 200,
            r.1@ == "OK"@,
    {
        (200, String::from_str("OK"))
    }

    /// The JSON route: takes the outcome of the on-demand refresh this
    /// request triggered. Success publishes the snapshot, updates the
    /// gauges and answers 200 with the snapshot's JSON; a sampling failure
    /// answers 500 with the error's message and leaves the state untouched.
    pub fn handle_json_metrics(&mut self, outcome: Result<SystemInfo, SystemInfoError>) -> (r: (
        u16,
        String,
    ))
        requires
            old(self).wf(),
            outcome matches Ok(s) ==> snapshot_wf(s),
        ensures
            final(self).wf(),
            final(self).collector.spec_interval_ms() == old(self).collector.spec_interval_ms(),
            (match outcome {
                Ok(s) => {
                    &&& r.0 == 200
                    &&& r.1@ == spec_snapshot_json(s)
                    &&& final(self).collector.spec_current() == Some(s)
                    &&& final(self).collector.history() == old(self).collector.history().push(s)
                    &&& final(self).gauges.cpu_usage == s.global_cpu.usage
                    &&& final(self).gauges.memory_used == s.memory.used
                    &&& final(self).gauges.memory_total == s.memory.total
                },
                Err(e) => {
                    &&& r.0 == 500
                    &&& r.1@ == spec_error_message(e)
                    &&& *final(self) == *old(self)
                },
            }),
    {
        match outcome {
            Ok(snap) => {
                let body = snapshot_json(&snap);
                self.gauges.update(&snap);
                self.collector.publish(snap);
                (200, body)
            },
            Err(e) => {
                let msg = e.message();
                (500, msg)
            },
        }
    }

    /// One tick of the background refresher: publishes a successful
    /// sample and updates the gauges; swallows a failure, leaving the
    /// previously published snapshot in place, and reports it for logging.
    pub fn scheduler_tick(&mut self, outcome: Result<SystemInfo, SystemInfoError>) -> (r: Result<
        (),
        SystemInfoError,
    >)
        requires
            old(self).wf(),
            outcome matches Ok(s) ==> snapshot_wf(s),
        ensures
            final(self).wf(),
            final(self).collector.spec_interval_ms() == old(self).collector.spec_interval_ms(),
            (match outcome {
                Ok(s) => {
                    &&& r is Ok
                    &&& final(self).collector.spec_current() == Some(s)
                    &&& final(self).collector.history() == old(self).collector.history().push(s)
                    &&& final(self).gauges.cpu_usage == s.global_cpu.usage
                    &&& final(self).gauges.memory_used == s.memory.used
                    &&& final(self).gauges.memory_total == s.memory.total
                },
                Err(e) => {
                    &&& r matches Err(e2) && e2 == e
                    &&& *final(self) == *old(self)
                },
            }),
    {
        match outcome {
            Ok(snap) => {
                self.gauges.update(&snap);
                self.collector.publish(snap);
                Ok(())
            },
            Err(e) => Err(e),
        }
    }
}

} // verus!
