//! The gauge set behind the scrape endpoint: a fixed trio of named numeric
//! gauges (CPU usage, memory used, memory total) copied out of the latest
//! snapshot on each refresh, and their line-oriented exposition rendering —
//! one `<name> <value>` line per gauge. Before the first refresh all gauges
//! are zero, which renders as a zero-valued gauge set, not as an error.
use vstd::prelude::*;
use crate::snapshot::SystemInfo;
use crate::text::{append_centi, append_u64, centi_seq, dec_seq};

verus! {

/// The three exposed gauges. CPU usage is held in hundredths of a percent.
#[derive(Clone, Copy, Debug)]
pub struct GaugeSet {
    pub cpu_usage: u32,
    pub memory_used: u64,
    pub memory_total: u64,
}

/// The exposition text of a gauge set: one `<name> <value>` line per gauge,
/// CPU usage with two decimals, byte counts as integers.
pub open spec fn spec_render_gauges(g: GaugeSet) -> Seq<char> {
    "system_cpu_usage "@ + centi_seq(g.cpu_usage as nat) + "\nsystem_memory_used_bytes "@
        + dec_seq(g.memory_used as nat) + "\nsystem_memory_total_bytes "@ + dec_seq(
        g.memory_total as nat,
    ) + "\n"@
}

impl GaugeSet {
    /// All gauges start at zero.
    pub fn new() -> (g: GaugeSet)
        ensures
            g.cpu_usage == 0,
            g.memory_used == 0,
            g.memory_total == 0,
    {
        GaugeSet { cpu_usage: 0, memory_used: 0, memory_total: 0 }
    }

    /// The single update step: copies the gauge values out of a snapshot.
    pub fn update(&mut self, s: &SystemInfo)
        ensures
            final(self).cpu_usage == s.global_cpu.usage,
            final(self).memory_used == s.memory.used,
            final(self).memory_total == s.memory.total,
    {
        self.cpu_usage = s.global_cpu.usage;
        self.memory_used = s.memory.used;
        self.memory_total = s.memory.total;
    }

    /// Renders the gauges as exposition text. Encoding cannot fail: the
    /// output is a function of the gauge values alone.
    pub fn render(&self) -> (r: String)
        ensures
            r@ == spec_render_gauges(*self),
    {
        let mut out = String::from_str("system_cpu_usage ");
        append_centi(&mut out, self.cpu_usage as u64);
        out.append("\nsystem_memory_used_bytes ");
        append_u64(&mut out, self.memory_used);
        out.append("\nsystem_memory_total_bytes ");
        append_u64(&mut out, self.memory_total);
        out.append("\n");
        out
    }
}

} // verus!
