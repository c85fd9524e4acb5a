//! Where rules put what they find.
use vstd::prelude::*;
use crate::report::{FileMetrics, Finding};

verus! {

/// A sink for findings and file metrics.
pub trait Emitter {
    fn emit(&mut self, finding: Finding);

    fn record_metrics(&mut self, metrics: FileMetrics) {
    }
}

/// An emitter that keeps everything, in order, for a report.
#[derive(Debug)]
pub struct ReportEmitter {
    pub findings: Vec<Finding>,
    pub metrics: Vec<FileMetrics>,
}

impl ReportEmitter {
    pub fn new() -> (r: ReportEmitter)
        ensures
            r.findings@.len() == 0,
            r.metrics@.len() == 0,
    {
        ReportEmitter { findings: Vec::new(), metrics: Vec::new() }
    }
}

impl Emitter for ReportEmitter {
    fn emit(&mut self, finding: Finding)
        ensures
            final(self).findings@ == old(self).findings@.push(finding),
            final(self).metrics@ == old(self).metrics@,
    {
        self.findings.push(finding);
    }

    fn record_metrics(&mut self, metrics: FileMetrics)
        ensures
            final(self).metrics@ == old(self).metrics@.push(metrics),
            final(self).findings@ == old(self).findings@,
    {
        self.metrics.push(metrics);
    }
}

} // verus!
