//! Energy sampling records: the RAPL counter monitor keeps the last reading it
//! took, and the batch profiler owns a monitor and its batch size.

use vstd::prelude::*;
use crate::text::{parse_decimal_u64, parse_u64, trim, trimmed};

verus! {

/// `std::time::Instant`, carried through opaquely.
#[verifier::external_type_specification]
#[verifier::external_body]
pub struct ExInstant(std::time::Instant);

/// `std::time::Instant::now`: the monotonic clock; nothing is promised of it.
#[verifier::external_body]
fn instant_now() -> std::time::Instant {
    std::time::Instant::now()
}

/// A reading of the RAPL energy counter.
#[derive(Clone, Copy, Debug)]
pub struct RaplSample {
    /// Energy consumed since the counter's last reset, in microjoules.
    pub energy_uj: u64,
    /// When the reading was taken.
    pub timestamp: std::time::Instant,
}

/// The sysfs file of the package-0 RAPL counter.
pub open spec fn rapl_counter_path() -> Seq<char> {
    "/sys/class/powercap/intel-rapl/intel-rapl:0/energy_uj"@
}

/// Monitor of the CPU package energy counter; remembers its last reading.
pub struct RaplMonitor {
    rapl_path: String,
    last_sample: Option<RaplSample>,
}

impl RaplMonitor {
    pub closed spec fn spec_last_sample(&self) -> Option<RaplSample> {
        self.last_sample
    }

    pub closed spec fn spec_rapl_path(&self) -> Seq<char> {
        self.rapl_path@
    }

    /// A monitor of the package-0 counter that has taken no reading yet.
    pub fn new() -> (m: Self)
        ensures
            m.spec_rapl_path() == rapl_counter_path(),
            m.spec_last_sample() is None,
    {
        RaplMonitor {
            rapl_path: String::from_str("/sys/class/powercap/intel-rapl/intel-rapl:0/energy_uj"),
            last_sample: None,
        }
    }

    /// The counter file this monitor reads.
    pub fn rapl_path(&self) -> (s: &str)
        ensures
            s@ == self.spec_rapl_path(),
    {
        self.rapl_path.as_str()
    }

    /// The last reading taken, if any.
    pub fn last_sample(&self) -> (s: Option<RaplSample>)
        ensures
            s == self.spec_last_sample(),
    {
        self.last_sample
    }

    /// Records a counter reading taken now and remembers it as the last one.
    pub fn sample(&mut self, energy_uj: u64) -> (s: RaplSample)
        ensures
            s.energy_uj == energy_uj,
            final(self).spec_last_sample() == Some(s),
            final(self).spec_rapl_path() == old(self).spec_rapl_path(),
    {
        let s = RaplSample { energy_uj, timestamp: instant_now() };
        self.last_sample = Some(s);
        s
    }

    /// Energy consumed between two readings, in microjoules; a counter that
    /// went backwards (wrapped or reset) gives 0.
    pub fn energy_delta_uj(before: &RaplSample, after: &RaplSample) -> (d: u64)
        ensures
            d == if after.energy_uj >= before.energy_uj { (after.energy_uj - before.energy_uj) as u64 } else { 0u64 },
    {
        after.energy_uj.saturating_sub(before.energy_uj)
    }
}

/// The counter value a RAPL file's text holds: the trimmed text read as a
/// decimal `u64`, or 0 when it is not one.
pub open spec fn counter_reading(text: Seq<char>) -> u64 {
    match parse_u64(trim(text)) {
        Some(v) => v,
        None => 0,
    }
}

/// Reads the energy counter, in microjoules, out of the text of a RAPL file;
/// text that is not a decimal counter reads as 0.
pub fn energy_counter_reading(text: &str) -> (e: u64)
    ensures
        e == counter_reading(text@),
{
    match parse_decimal_u64(trimmed(text)) {
        Some(v) => v,
        None => 0,
    }
}

/// Samples CPU/GPU/ANE power through `powermetrics` where it is available.
pub struct PowermetricsSampler;

/// Runs computation batches of a fixed size and collects energy per batch.
pub struct BatchProfiler {
    pub monitor: RaplMonitor,
    pub batch_size: usize,
}

impl BatchProfiler {
    pub fn new(batch_size: usize) -> (p: Self)
        ensures
            p.batch_size == batch_size,
            p.monitor.spec_rapl_path() == rapl_counter_path(),
            p.monitor.spec_last_sample() is None,
    {
        BatchProfiler { monitor: RaplMonitor::new(), batch_size }
    }
}

} // verus!
