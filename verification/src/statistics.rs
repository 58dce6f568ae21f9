use vstd::prelude::*;

use crate::util::Dur;

verus! {

/// The spans gathered over repeated calls of one test, stage by
/// stage, with the digest of the last body seen.
#[derive(Debug)]
pub struct CallStats {
    pub calls: usize,
    pub dns: Vec<Dur>,
    pub connection: Vec<Dur>,
    pub tls: Vec<Dur>,
    pub headers: Vec<Dur>,
    pub response: Vec<Dur>,
    pub last_hash: Option<String>,
}

/// Per-test call statistics, keyed by test name.
#[derive(Debug)]
pub struct StatsCollector {
    pub tests: Vec<(String, CallStats)>,
}

} // verus!
