//! Primes the pages of a running program: plans and sequences the locking of
//! loaded program segments into memory and the replacement of read-only
//! program text with mappings that are eligible for huge pages.
//!
//! The crate decides and the host acts: [`Options::run`] begins a
//! [`run::Run`], which names one thing at a time for the host to do and takes
//! what came of it, until the records of the run are complete.

use vstd::prelude::*;

pub mod geometry;
pub mod page;
pub mod probe;
pub mod prot;
pub mod remap;
pub mod report;
pub mod run;
pub mod segment;
pub mod text;

verus! {

/// How much a record matters.
#[derive(Clone, Copy, Debug, PartialEq, Eq)]
pub enum Severity {
    /// Detail for those who follow the run closely.
    Trace,
    /// What was done.
    Info,
    /// What was asked for and not done.
    Warn,
}

/// The options for priming.
///
/// By default nothing is done; `mlock` and `remap` change this.
#[derive(Clone, Copy, Debug, PartialEq, Eq)]
#[must_use]
pub struct Options {
    /// Whether segments are locked into memory.
    pub mlock: bool,
    /// Whether segments are replaced by mappings that huge pages can back.
    pub remap: bool,
}

impl Default for Options {
    fn default() -> (options: Options)
        ensures
            options == (Options { mlock: false, remap: false }),
    {
        Options { mlock: false, remap: false }
    }
}

impl Options {
    /// Sets whether segments are locked into memory.
    #[inline]
    #[must_use]
    pub fn mlock(self, mlock: bool) -> (options: Options)
        ensures
            options == (Options { mlock, remap: self.remap }),
    {
        Options { mlock, remap: self.remap }
    }

    /// Sets whether segments are replaced.
    #[inline]
    #[must_use]
    pub fn remap(self, remap: bool) -> (options: Options)
        ensures
            options == (Options { mlock: self.mlock, remap }),
    {
        Options { mlock: self.mlock, remap }
    }

    /// Begins a run with these options. Nothing has been done yet: the run
    /// asks first for the memory map of the process.
    #[must_use]
    pub fn run(self) -> (run: run::Run)
        ensures
            run@ == run::RunView::fresh(self),
            run.wf(),
    {
        run::Run::new(self)
    }
}

/// A record of a run in specifications.
pub type RecordView = (Severity, Seq<char>);

/// The records of a list in specifications.
pub open spec fn records(log: Seq<(Severity, String)>) -> Seq<RecordView> {
    log.map_values(|r: (Severity, String)| (r.0, r.1@))
}

/// The records of a run, in the order in which they were made.
#[derive(Clone, Debug, PartialEq, Eq)]
#[must_use]
pub struct Output {
    /// The records.
    pub log: Vec<(Severity, String)>,
}

impl View for Output {
    type V = Seq<RecordView>;

    open spec fn view(&self) -> Seq<RecordView> {
        records(self.log@)
    }
}

/// Returns the options for priming with which nothing is done.
#[inline]
pub fn prime() -> (options: Options)
    ensures
        options == (Options { mlock: false, remap: false }),
{
    Options { mlock: false, remap: false }
}

} // verus!
