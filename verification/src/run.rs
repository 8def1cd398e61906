//! A run of the primer from its first record to its last.
//!
//! A [`Run`] makes the decisions of a run and leaves the acting to its host.
//! It names what the host is to do next, a [`Request`]; the host does it and
//! hands back what came of it, an [`Event`]; and so on until the run is
//! finished and its records can be taken.

use vstd::prelude::*;
use vstd::string::*;
use crate::geometry::{Geometry, Span};
use crate::page::{is_mask, is_page_size, is_power_of_two_page, mask};
use crate::prot::{readable, writable};
use crate::probe::{
    huge_page_size, parse_failure_text, parse_huge_page_size, parsed_size, FileRead,
};
use crate::remap::{Call, HugeError, Remap, Reply, Stage, Step};
use crate::report::{report, report_text};
use crate::segment::{
    enumerated, lemma_enumerated_workable, lock_outcome, mlock, program_name, program_name_of,
    views, Enumeration, LoadedObject, LoadedObjectView, Segment, SegmentView,
};
use crate::text::{decimal, decimal_digits, lossy, lossy_text, os_error_text};
use crate::{records, Options, Output, RecordView, Severity};

verus! {

/// Counts the threads of the process with `num_threads::num_threads`, which
/// gives a number that is not zero, or nothing where it cannot tell.
#[verifier::external_body]
fn thread_count() -> (count: Option<usize>)
    ensures
        count matches Some(n) ==> n >= 1,
{
    match num_threads::num_threads() {
        Some(n) => Some(n.get()),
        None => None,
    }
}

/// What a run waits for.
#[derive(Clone, Copy, Debug, PartialEq, Eq)]
pub enum Phase {
    /// The memory map as it is before anything is done.
    MapsBefore,
    /// The contents of the file that holds the size of huge pages.
    Probe,
    /// The page size and the loaded objects.
    Host,
    /// The result of a call made to replace a segment.
    Remapping,
    /// The result of the call that locks a segment.
    Locking,
    /// The memory map as it is after all was done.
    MapsAfter,
    /// Nothing: the records are complete.
    Finished,
}

/// What the host is to do next.
#[derive(Clone, Copy, Debug, PartialEq, Eq)]
pub enum Request {
    /// Read the memory map of the process.
    ReadMaps,
    /// Read the file in which the kernel shows the size of huge pages.
    ReadHugePageSize,
    /// Find the page size, the path of the running program and the loaded
    /// objects with their program headers.
    Enumerate,
    /// Make this call to the operating system.
    Call(Call),
    /// Nothing more: take the records.
    Finished,
}

/// What the host found when asked to enumerate.
#[derive(Clone, Debug, PartialEq, Eq)]
pub struct Host {
    /// The size of a base page.
    pub page_size: usize,
    /// The path of the running program, where it is known.
    pub current_exe: Option<Vec<u8>>,
    /// The loaded objects in the order of the dynamic linker, the main
    /// program first.
    pub objects: Vec<LoadedObject>,
}

/// What came of a request.
#[derive(Debug, PartialEq, Eq)]
pub enum Event {
    /// The memory map, or why it could not be read.
    Maps(Result<Vec<u8>, String>),
    /// What reading the huge page size file gave.
    HugePageSize(FileRead),
    /// What enumerating found.
    Host(Host),
    /// What a call returned.
    Reply(Reply),
}

/// The loaded objects of a list in specifications.
pub open spec fn object_views(objects: Seq<LoadedObject>) -> Seq<LoadedObjectView> {
    objects.map_values(|o: LoadedObject| o@)
}

/// The record of a memory map read `when`, or of the failure to read it.
pub open spec fn maps_text(when: Seq<char>, read: Result<Vec<u8>, String>) -> Seq<char> {
    match read {
        Ok(maps) => "maps "@ + when + ":\n"@ + lossy_text(maps@),
        Err(why) => "couldn't read maps: "@ + why@,
    }
}

/// The warning of a process that has more threads than one.
pub open spec fn threads_text(threads: usize) -> Seq<char> {
    "Skipping page priming: there are "@ + decimal_digits(threads as nat)
        + " threads running; must be 1!"@
}

/// Whether the host found what a run can work with: a page size that is one,
/// and segments that end within the address space, also when rounded to the
/// pages in use.
pub open spec fn workable(host: Host, huge_page_mask: Option<usize>) -> bool {
    &&& is_page_size(host.page_size as int)
    &&& forall|i: int|
        0 <= i < host.objects.len() ==> (#[trigger] host.objects[i])@.workable(
            (host.page_size - 1) as usize,
            huge_page_mask,
        )
}

/// A run, as far as it has come.
pub struct Run {
    /// What was asked for.
    pub options: Options,
    /// What the run waits for.
    pub phase: Phase,
    /// The records made so far.
    pub log: Vec<(Severity, String)>,
    /// The mask of a base page.
    pub base_page_mask: usize,
    /// The mask of a huge page, if segments are to be replaced.
    pub huge_page_mask: Option<usize>,
    /// The segments found.
    pub segments: Vec<Segment>,
    /// How many segments are dealt with; while one is worked on, it is the
    /// segment with this number.
    pub index: usize,
    /// The replacing of the segment that is worked on.
    pub remap: Remap,
}

/// A run in specifications.
#[verifier::ext_equal]
pub struct RunView {
    pub options: Options,
    pub phase: Phase,
    pub log: Seq<RecordView>,
    pub base_page_mask: usize,
    pub huge_page_mask: Option<usize>,
    pub segments: Seq<SegmentView>,
    pub index: int,
    pub remap: Remap,
}

impl View for Run {
    type V = RunView;

    open spec fn view(&self) -> RunView {
        RunView {
            options: self.options,
            phase: self.phase,
            log: records(self.log@),
            base_page_mask: self.base_page_mask,
            huge_page_mask: self.huge_page_mask,
            segments: views(self.segments@),
            index: self.index as int,
            remap: self.remap,
        }
    }
}

impl RunView {
    /// A run that has done nothing yet.
    pub open spec fn fresh(options: Options) -> RunView {
        RunView {
            options,
            phase: Phase::MapsBefore,
            log: Seq::empty(),
            base_page_mask: 0,
            huge_page_mask: None,
            segments: Seq::empty(),
            index: 0,
            remap: Remap::refused(0, HugeError::Conflict),
        }
    }

    /// What a run needs to go from segment to segment: masks that are masks,
    /// and segments that can be rounded to pages.
    pub open spec fn ready(self) -> bool {
        &&& is_mask(self.base_page_mask)
        &&& self.huge_page_mask matches Some(huge) ==> is_mask(huge)
        &&& 0 <= self.index <= self.segments.len()
        &&& forall|i: int|
            0 <= i < self.segments.len() ==> (#[trigger] self.segments[i]).workable(
                self.base_page_mask,
                self.huge_page_mask,
            )
    }

    /// What holds of a run that has no segments yet.
    pub open spec fn idle(self) -> bool {
        self.ready() && self.segments.len() == 0
    }

    /// What every run that [`Options::run`] began and [`Run::step`] advanced
    /// satisfies.
    pub open spec fn wf(self) -> bool {
        &&& self.ready()
        &&& self.phase == Phase::MapsBefore || self.phase == Phase::Probe || self.phase
            == Phase::Host ==> self.segments.len() == 0
        &&& self.phase == Phase::Remapping || self.phase == Phase::Locking ==> self.index
            < self.segments.len()
        &&& self.phase == Phase::Remapping ==> {
            &&& self.huge_page_mask is Some
            &&& self.remap.wf()
            &&& self.remap.pending() is Some
        }
    }

    /// What the host is to do next.
    pub open spec fn request(self) -> Request {
        match self.phase {
            Phase::MapsBefore | Phase::MapsAfter => Request::ReadMaps,
            Phase::Probe => Request::ReadHugePageSize,
            Phase::Host => Request::Enumerate,
            Phase::Remapping => Request::Call(self.remap.pending()->0),
            Phase::Locking => Request::Call(self.segments[self.index].lock_call()),
            Phase::Finished => Request::Finished,
        }
    }

    /// The run with one more record.
    pub open spec fn logged(self, severity: Severity, text: Seq<char>) -> RunView {
        RunView { log: self.log.push((severity, text)), ..self }
    }

    /// The run, finished with a warning.
    pub open spec fn given_up(self, text: Seq<char>) -> RunView {
        RunView { phase: Phase::Finished, ..self.logged(Severity::Warn, text) }
    }

    /// The run after the first memory map came, `threads` being the number of
    /// threads of the process: with any number but one the run gives up.
    pub open spec fn gate(self, read: Result<Vec<u8>, String>, threads: Option<usize>) -> RunView {
        let noted = self.logged(Severity::Trace, maps_text("before"@, read));
        match threads {
            Some(count) => if count == 1 {
                noted.after_gate()
            } else {
                noted.given_up(threads_text(count))
            },
            None => noted.given_up("Skipping page priming: unable to get thread count!"@),
        }
    }

    /// The run once it is known that the process has one thread.
    pub open spec fn after_gate(self) -> RunView {
        if self.options.remap {
            RunView { phase: Phase::Probe, ..self }
        } else {
            self.after_probe()
        }
    }

    /// The run after the huge page size file was read.
    pub open spec fn probed(self, read: FileRead) -> RunView {
        match read {
            FileRead::NotFound => self.logged(
                Severity::Warn,
                "Huge page remapping requested but huge pages unavailable."@,
            ).after_probe(),
            FileRead::Failed(why) => self.logged(
                Severity::Warn,
                "Unable to describe huge page size: "@ + why@,
            ).after_probe(),
            FileRead::Data(data) => match parsed_size(data@) {
                Some(size) => RunView {
                    huge_page_mask: Some((size - 1) as usize),
                    ..self
                }.after_probe(),
                None => self.logged(
                    Severity::Warn,
                    "Unable to describe huge page size: "@ + parse_failure_text(data@),
                ).after_probe(),
            },
        }
    }

    /// The run once it is known whether there are huge pages: with none, and
    /// no locking asked for, there is nothing to do.
    pub open spec fn after_probe(self) -> RunView {
        if self.huge_page_mask is None && !self.options.mlock {
            self.given_up("No page priming operations to perform."@)
        } else {
            RunView { phase: Phase::Host, ..self }
        }
    }

    /// The run after the host enumerated.
    pub open spec fn hosted(self, host: Host) -> RunView {
        RunView {
            base_page_mask: (host.page_size - 1) as usize,
            segments: enumerated(
                Seq::empty(),
                0,
                program_name_of(host.current_exe),
                object_views(host.objects@),
            ),
            index: 0,
            ..self
        }.settle()
    }

    /// The run with the end of the current segment's replacing noted.
    pub open spec fn recorded(self, result: Result<Span, HugeError>) -> RunView {
        RunView {
            segments: self.segments.update(
                self.index,
                SegmentView { remap: Some(result), ..self.segments[self.index] },
            ),
            ..self
        }
    }

    /// The replacing of the current segment before any call was made.
    pub open spec fn begun(self) -> Remap {
        self.segments[self.index].begun(self.base_page_mask, self.huge_page_mask->0)
    }

    /// The run with all segments dealt with: the record that sums them up is
    /// made, and the memory map is asked for once more.
    pub open spec fn summed_up(self) -> RunView {
        RunView {
            phase: Phase::MapsAfter,
            ..self.logged(Severity::Info, report_text(self.segments))
        }
    }

    /// The run once the current segment was replaced or not: it is locked if
    /// that was asked for, and the next segment comes.
    pub open spec fn after_remap(self) -> RunView {
        if self.options.mlock {
            RunView { phase: Phase::Locking, ..self }
        } else {
            RunView { index: self.index + 1, ..self }.settle()
        }
    }

    /// The run gone on from the current segment to the next thing that needs
    /// the host. Segments are taken in order, each replaced first and locked
    /// after; a segment that is refused asks for no call, and its refusal is
    /// noted at once.
    pub open spec fn settle(self) -> RunView
        decreases self.segments.len() - self.index,
    {
        if self.index < 0 || self.index >= self.segments.len() {
            self.summed_up()
        } else if self.huge_page_mask is Some && self.begun().pending() is Some {
            RunView { phase: Phase::Remapping, remap: self.begun(), ..self }
        } else {
            let noted = if self.huge_page_mask is Some {
                RunView { remap: self.begun(), ..self }.recorded(self.begun().result())
            } else {
                self
            };
            if self.options.mlock {
                RunView { phase: Phase::Locking, ..noted }
            } else {
                proof {
                    assert(noted.segments.len() == self.segments.len());
                }
                RunView { index: self.index + 1, ..noted }.settle()
            }
        }
    }

    /// The run after a call made to replace the current segment returned,
    /// `detail` being what the operating system says of the error number, if
    /// the call failed.
    pub open spec fn remap_replied(self, reply: Reply, detail: Seq<char>) -> RunView {
        let remap = self.remap.next(reply);
        let fails_now = self.remap.failure is None && remap.failure is Some
            && remap.failure->0.code() is Some;
        let noted = RunView {
            remap,
            segments: if fails_now {
                self.segments.update(
                    self.index,
                    SegmentView { remap_detail: detail, ..self.segments[self.index] },
                )
            } else {
                self.segments
            },
            ..self
        };
        if remap.pending() is Some {
            noted
        } else {
            noted.recorded(remap.result()).after_remap()
        }
    }

    /// The run after the call that locks the current segment returned.
    pub open spec fn lock_replied(self, reply: Reply, detail: Seq<char>) -> RunView {
        let segment = self.segments[self.index];
        RunView {
            segments: self.segments.update(
                self.index,
                SegmentView {
                    mlock: Some(lock_outcome(reply)),
                    mlock_detail: if reply is Err {
                        detail
                    } else {
                        segment.mlock_detail
                    },
                    ..segment
                },
            ),
            index: self.index + 1,
            ..self
        }.settle()
    }

    /// The run after the last memory map came.
    pub open spec fn closing(self, read: Result<Vec<u8>, String>) -> RunView {
        RunView {
            phase: Phase::Finished,
            ..self.logged(Severity::Trace, maps_text("after"@, read))
        }
    }

    /// Whether the run can take the event. It can take any event that it does
    /// not wait for, and ignores it; of the others, a huge page size must be
    /// a page size, and what the host found must be workable.
    pub open spec fn admits(self, event: Event) -> bool {
        match event {
            Event::HugePageSize(FileRead::Data(data)) => self.phase == Phase::Probe ==> (
            parsed_size(data@) matches Some(size) ==> is_page_size(size as int)),
            Event::Host(host) => self.phase == Phase::Host ==> workable(
                host,
                self.huge_page_mask,
            ),
            _ => true,
        }
    }

    /// The run after the event, `threads` being the number of threads of the
    /// process and `detail` what the operating system says of the error
    /// number in the event, if there is one. An event that the run does not
    /// wait for changes nothing.
    pub open spec fn advance(self, event: Event, threads: Option<usize>, detail: Seq<char>)
        -> RunView {
        match event {
            Event::Maps(read) => match self.phase {
                Phase::MapsBefore => self.gate(read, threads),
                Phase::MapsAfter => self.closing(read),
                _ => self,
            },
            Event::HugePageSize(read) => match self.phase {
                Phase::Probe => self.probed(read),
                _ => self,
            },
            Event::Host(host) => match self.phase {
                Phase::Host => self.hosted(host),
                _ => self,
            },
            Event::Reply(reply) => match self.phase {
                Phase::Remapping => self.remap_replied(reply, detail),
                Phase::Locking => self.lock_replied(reply, detail),
                _ => self,
            },
        }
    }
}

/// With default options a run on a process with one thread does nothing: it
/// makes the record of the memory map and one warning, and is finished
/// without asking for the loaded objects or for any call.
pub proof fn lemma_default_options_do_nothing(read: Result<Vec<u8>, String>, detail: Seq<char>)
    ensures
        ({
            let run = RunView::fresh(Options { mlock: false, remap: false }).advance(
                Event::Maps(read),
                Some(1),
                detail,
            );
            &&& run.phase == Phase::Finished
            &&& run.request() == Request::Finished
            &&& run.segments.len() == 0
            &&& run.log == seq![
                (Severity::Trace, maps_text("before"@, read)),
                (Severity::Warn, "No page priming operations to perform."@),
            ]
        }),
{
    let run = RunView::fresh(Options { mlock: false, remap: false }).advance(
        Event::Maps(read),
        Some(1),
        detail,
    );
    assert(run.log =~= seq![
        (Severity::Trace, maps_text("before"@, read)),
        (Severity::Warn, "No page priming operations to perform."@),
    ]);
}

/// Whatever the options, a run on a process that has not exactly one thread
/// is finished as soon as the first memory map came: it adds the record of
/// the map and a warning, which names the number of threads if it is known,
/// and it asks for nothing more.
pub proof fn lemma_other_threads_stop_the_run(
    options: Options,
    read: Result<Vec<u8>, String>,
    threads: Option<usize>,
    detail: Seq<char>,
)
    requires
        threads != Some(1usize),
    ensures
        ({
            let run = RunView::fresh(options).advance(Event::Maps(read), threads, detail);
            &&& run.phase == Phase::Finished
            &&& run.request() == Request::Finished
            &&& run.segments.len() == 0
            &&& run.log == seq![
                (Severity::Trace, maps_text("before"@, read)),
                (
                    Severity::Warn,
                    match threads {
                        Some(count) => threads_text(count),
                        None => "Skipping page priming: unable to get thread count!"@,
                    },
                ),
            ]
        }),
{
    let run = RunView::fresh(options).advance(Event::Maps(read), threads, detail);
    assert(run.log =~= seq![
        (Severity::Trace, maps_text("before"@, read)),
        (
            Severity::Warn,
            match threads {
                Some(count) => threads_text(count),
                None => "Skipping page priming: unable to get thread count!"@,
            },
        ),
    ]);
}

/// A segment that can be written or cannot be read is refused without a
/// call: going on from it, a run notes the refusal and waits for no call
/// made to replace it.
pub proof fn lemma_refused_segments_ask_for_nothing(run: RunView)
    requires
        0 <= run.index < run.segments.len(),
        run.huge_page_mask is Some,
        !readable(run.segments[run.index].flags) || writable(run.segments[run.index].flags),
    ensures
        run.begun().pending() is None,
        run.begun().result() == Err::<Span, HugeError>(
            if !readable(run.segments[run.index].flags) {
                HugeError::Unreadable
            } else {
                HugeError::Writable
            },
        ),
        run.options.mlock ==> run.settle() == (RunView {
            phase: Phase::Locking,
            remap: run.begun(),
            ..run.recorded(run.begun().result())
        }),
        !run.options.mlock ==> run.settle() == (RunView {
            index: run.index + 1,
            remap: run.begun(),
            ..run.recorded(run.begun().result())
        }).settle(),
{
}

/// Whether the records `before` are the first of the records `after`, in the
/// same order.
pub open spec fn begins_with(after: Seq<RecordView>, before: Seq<RecordView>) -> bool {
    before.len() <= after.len() && after.take(before.len() as int) == before
}

/// Records that get one more record, or none, begin with what they were.
pub proof fn lemma_begins_with(before: Seq<RecordView>, more: Seq<RecordView>)
    ensures
        begins_with(before + more, before),
        begins_with(before, before),
        forall|r: RecordView| #[trigger] begins_with(before.push(r), before),
        forall|r: RecordView, t: RecordView| #[trigger]
            begins_with(before.push(r).push(t), before),
{
    assert((before + more).take(before.len() as int) =~= before);
    assert(before.take(before.len() as int) =~= before);
    assert forall|r: RecordView| #[trigger] begins_with(before.push(r), before) by {
        assert(before.push(r).take(before.len() as int) =~= before);
    }
    assert forall|r: RecordView, t: RecordView| #[trigger]
        begins_with(before.push(r).push(t), before) by {
        assert(before.push(r).push(t).take(before.len() as int) =~= before);
    }
}

/// Going on from segment to segment never goes back: no segment that was
/// dealt with is touched again, no record is taken back or changed, and at
/// most the record that sums up the segments is added.
pub proof fn lemma_settle_goes_forward(run: RunView)
    requires
        0 <= run.index <= run.segments.len(),
    ensures
        run.index <= run.settle().index <= run.segments.len(),
        run.settle().segments.len() == run.segments.len(),
        forall|i: int| 0 <= i < run.index ==> run.settle().segments[i] == run.segments[i],
        begins_with(run.settle().log, run.log),
        run.settle().log.len() <= run.log.len() + 1,
        run.settle().options == run.options,
    decreases run.segments.len() - run.index,
{
    let after = run.settle();
    lemma_begins_with(run.log, Seq::empty());
    if run.index >= run.segments.len() {
    } else if run.huge_page_mask is Some && run.begun().pending() is Some {
    } else {
        let noted = if run.huge_page_mask is Some {
            RunView { remap: run.begun(), ..run }.recorded(run.begun().result())
        } else {
            run
        };
        if !run.options.mlock {
            let next = RunView { index: run.index + 1, ..noted };
            lemma_settle_goes_forward(next);
            assert forall|i: int| 0 <= i < run.index implies after.segments[i]
                == run.segments[i] by {
                assert(after.segments[i] == next.segments[i]);
                assert(next.segments[i] == run.segments[i]);
            }
        }
    }
}

/// What a run is after an event, as far as order goes: its records begin
/// with the records before, and where segments were being dealt with, none
/// that was dealt with is touched again.
pub open spec fn follows(after: RunView, before: RunView) -> bool {
    &&& begins_with(after.log, before.log)
    &&& after.options == before.options
    &&& before.phase == Phase::Remapping || before.phase == Phase::Locking ==> {
        &&& before.index <= after.index
        &&& after.segments.len() == before.segments.len()
        &&& forall|i: int| 0 <= i < before.index ==> after.segments[i] == before.segments[i]
    }
}

proof fn lemma_gate_follows(run: RunView, read: Result<Vec<u8>, String>, threads: Option<usize>)
    requires
        run.phase == Phase::MapsBefore,
    ensures
        follows(run.gate(read, threads), run),
{
    lemma_begins_with(run.log, Seq::empty());
}

proof fn lemma_probed_follows(run: RunView, read: FileRead)
    requires
        run.phase == Phase::Probe,
    ensures
        follows(run.probed(read), run),
{
    lemma_begins_with(run.log, Seq::empty());
}

proof fn lemma_hosted_follows(run: RunView, host: Host)
    requires
        run.phase == Phase::Host,
    ensures
        follows(run.hosted(host), run),
{
    let found = RunView {
        base_page_mask: (host.page_size - 1) as usize,
        segments: enumerated(
            Seq::empty(),
            0,
            program_name_of(host.current_exe),
            object_views(host.objects@),
        ),
        index: 0,
        ..run
    };
    lemma_settle_goes_forward(found);
}

proof fn lemma_remap_replied_follows(run: RunView, reply: Reply, detail: Seq<char>)
    requires
        run.wf(),
        run.phase == Phase::Remapping,
    ensures
        follows(run.remap_replied(reply, detail), run),
{
    lemma_begins_with(run.log, Seq::empty());
    let remap = run.remap.next(reply);
    let fails_now = run.remap.failure is None && remap.failure is Some
        && remap.failure->0.code() is Some;
    let noted = RunView {
        remap,
        segments: if fails_now {
            run.segments.update(
                run.index,
                SegmentView { remap_detail: detail, ..run.segments[run.index] },
            )
        } else {
            run.segments
        },
        ..run
    };
    if remap.pending() is None && !run.options.mlock {
        let done = noted.recorded(remap.result());
        let next = RunView { index: run.index + 1, ..done };
        lemma_settle_goes_forward(next);
        let after = run.remap_replied(reply, detail);
        assert(after == next.settle());
        assert forall|i: int| 0 <= i < run.index implies after.segments[i] == run.segments[i] by {
            assert(after.segments[i] == next.segments[i]);
        }
    }
}

proof fn lemma_lock_replied_follows(run: RunView, reply: Reply, detail: Seq<char>)
    requires
        run.wf(),
        run.phase == Phase::Locking,
    ensures
        follows(run.lock_replied(reply, detail), run),
{
    let segment = run.segments[run.index];
    let locked = RunView {
        segments: run.segments.update(
            run.index,
            SegmentView {
                mlock: Some(lock_outcome(reply)),
                mlock_detail: if reply is Err {
                    detail
                } else {
                    segment.mlock_detail
                },
                ..segment
            },
        ),
        index: run.index + 1,
        ..run
    };
    lemma_settle_goes_forward(locked);
    let after = run.lock_replied(reply, detail);
    assert(after == locked.settle());
    assert forall|i: int| 0 <= i < run.index implies after.segments[i] == run.segments[i] by {
        assert(after.segments[i] == locked.segments[i]);
    }
}

/// Whatever comes of a request, a run keeps its records and its order: the
/// records made before are the first of the records after, and the segments
/// are dealt with one after the other, none of them twice.
pub proof fn lemma_records_are_kept(
    run: RunView,
    event: Event,
    threads: Option<usize>,
    detail: Seq<char>,
)
    requires
        run.wf(),
    ensures
        follows(run.advance(event, threads, detail), run),
{
    lemma_begins_with(run.log, Seq::empty());
    match event {
        Event::Maps(read) => {
            if run.phase == Phase::MapsBefore {
                lemma_gate_follows(run, read, threads);
            }
        },
        Event::HugePageSize(read) => {
            if run.phase == Phase::Probe {
                lemma_probed_follows(run, read);
            }
        },
        Event::Host(host) => {
            if run.phase == Phase::Host {
                lemma_hosted_follows(run, host);
            }
        },
        Event::Reply(reply) => {
            if run.phase == Phase::Remapping {
                lemma_remap_replied_follows(run, reply, detail);
            } else if run.phase == Phase::Locking {
                lemma_lock_replied_follows(run, reply, detail);
            }
        },
    }
}

/// Writes the record of a memory map read `when`, or of the failure to read
/// it.
pub fn maps_record(when: &str, read: Result<Vec<u8>, String>) -> (text: String)
    ensures
        text@ == maps_text(when@, read),
{
    match read {
        Ok(maps) => {
            let mut text = String::from_str("maps ");
            text.append(when);
            text.append(":\n");
            text.append(lossy(&maps).as_str());
            assert(text@ =~= maps_text(when@, read));
            text
        },
        Err(why) => String::from_str("couldn't read maps: ").concat(why.as_str()),
    }
}

/// Tells whether the host found what a run can work with.
pub fn is_workable(host: &Host, huge_page_mask: Option<usize>) -> (yes: bool)
    requires
        huge_page_mask matches Some(huge) ==> is_mask(huge),
    ensures
        yes == workable(*host, huge_page_mask),
{
    if !is_power_of_two_page(host.page_size) {
        return false;
    }
    let base_page_mask = mask(host.page_size);
    let mut i: usize = 0;
    while i < host.objects.len()
        invariant
            i <= host.objects.len(),
            is_page_size(host.page_size as int),
            is_mask(base_page_mask),
            huge_page_mask matches Some(huge) ==> is_mask(huge),
            base_page_mask == host.page_size - 1,
            forall|j: int|
                0 <= j < i ==> (#[trigger] host.objects[j])@.workable(
                    base_page_mask,
                    huge_page_mask,
                ),
        decreases host.objects.len() - i,
    {
        if !host.objects[i].is_workable(base_page_mask, huge_page_mask) {
            assert(!host.objects[i as int]@.workable(
                (host.page_size - 1) as usize,
                huge_page_mask,
            ));
            return false;
        }
        i += 1;
    }
    true
}

impl Run {
    /// What every run that [`Options::run`] began and [`Run::step`] advanced
    /// satisfies.
    pub open spec fn wf(&self) -> bool {
        self@.wf()
    }

    /// Begins a run.
    pub fn new(options: Options) -> (run: Run)
        ensures
            run@ == RunView::fresh(options),
            run.wf(),
    {
        let zero = Span { start: 0, end: 0 };
        let run = Run {
            options,
            phase: Phase::MapsBefore,
            log: Vec::new(),
            base_page_mask: 0,
            huge_page_mask: None,
            segments: Vec::new(),
            index: 0,
            remap: Remap {
                stage: Stage::Done,
                flags: 0,
                geometry: Geometry { page: zero, outer: zero, inner: zero },
                start_reserved: false,
                end_reserved: false,
                stray: 0,
                file: 0,
                tmp: 0,
                failure: Some(HugeError::Conflict),
            },
        };
        proof {
            assert(is_mask(0)) by {
                reveal(vstd::arithmetic::power2::is_pow2);
            }
            assert(run@ =~= RunView::fresh(options));
        }
        run
    }

    /// Tells what the host is to do next.
    pub fn request(&self) -> (request: Request)
        requires
            self.wf(),
        ensures
            request == self@.request(),
    {
        match self.phase {
            Phase::MapsBefore | Phase::MapsAfter => Request::ReadMaps,
            Phase::Probe => Request::ReadHugePageSize,
            Phase::Host => Request::Enumerate,
            Phase::Remapping => match self.remap.current() {
                Step::Ask(call) => Request::Call(call),
                Step::Done(_) => Request::Finished,
            },
            Phase::Locking => {
                let segment = &self.segments[self.index];
                assert(self@.segments[self.index as int] == segment@);
                Request::Call(segment.lock())
            },
            Phase::Finished => Request::Finished,
        }
    }

    /// Gives the path of the object whose segment is worked on: the file in
    /// memory that replaces the segment is named after it.
    pub fn path(&self) -> (path: &Vec<u8>)
        requires
            self.wf(),
            self@.index < self@.segments.len(),
        ensures
            path@ == self@.segments[self@.index].path,
    {
        let segment = &self.segments[self.index];
        assert(self@.segments[self.index as int] == segment@);
        &segment.path
    }

    /// Tells whether the run is finished, so that its records are complete.
    pub fn is_finished(&self) -> (finished: bool)
        ensures
            finished == (self.phase == Phase::Finished),
    {
        match self.phase {
            Phase::Finished => true,
            _ => false,
        }
    }

    /// Hands over the records made.
    pub fn output(self) -> (output: Output)
        ensures
            output@ == self@.log,
    {
        Output { log: self.log }
    }

    /// Makes a record.
    fn note(&mut self, severity: Severity, text: String)
        ensures
            final(self)@ == old(self)@.logged(severity, text@),
    {
        self.log.push((severity, text));
        assert(self@.log =~= old(self)@.log.push((severity, text@)));
    }

    /// Finishes with a warning.
    fn give_up(&mut self, text: String)
        ensures
            final(self)@ == old(self)@.given_up(text@),
    {
        self.note(Severity::Warn, text);
        self.phase = Phase::Finished;
    }

    /// Takes the first memory map and goes on if the process has one thread.
    fn gate(&mut self, read: Result<Vec<u8>, String>, threads: Option<usize>)
        requires
            old(self)@.idle(),
        ensures
            final(self)@ == old(self)@.gate(read, threads),
            final(self)@.idle(),
            final(self).phase == Phase::Probe || final(self).phase == Phase::Host || final(self).phase == Phase::Finished,
    {
        self.note(Severity::Trace, maps_record("before", read));
        match threads {
            Some(count) => {
                if count == 1 {
                    self.after_gate();
                } else {
                    let mut text = String::from_str("Skipping page priming: there are ");
                    text.append(decimal(count).as_str());
                    text.append(" threads running; must be 1!");
                    assert(text@ =~= threads_text(count));
                    self.give_up(text);
                }
            },
            None => {
                self.give_up(String::from_str("Skipping page priming: unable to get thread count!"));
            },
        }
    }

    /// Goes on once it is known that the process has one thread.
    fn after_gate(&mut self)
        requires
            old(self)@.idle(),
        ensures
            final(self)@ == old(self)@.after_gate(),
            final(self)@.idle(),
            final(self).phase == Phase::Probe || final(self).phase == Phase::Host || final(self).phase == Phase::Finished,
    {
        if self.options.remap {
            self.phase = Phase::Probe;
        } else {
            self.after_probe();
        }
    }

    /// Takes what reading the huge page size file gave.
    fn probed(&mut self, read: FileRead)
        requires
            old(self)@.idle(),
            old(self)@.admits(Event::HugePageSize(read)),
            old(self).phase == Phase::Probe,
        ensures
            final(self)@ == old(self)@.probed(read),
            final(self)@.idle(),
            final(self).phase == Phase::Host || final(self).phase == Phase::Finished,
    {
        match huge_page_size(read) {
            Ok(Some(size)) => {
                self.huge_page_mask = Some(mask(size));
            },
            Ok(None) => {
                self.note(
                    Severity::Warn,
                    String::from_str("Huge page remapping requested but huge pages unavailable."),
                );
            },
            Err(e) => {
                self.note(
                    Severity::Warn,
                    String::from_str("Unable to describe huge page size: ").concat(e.message()),
                );
            },
        }
        self.after_probe();
    }

    /// Goes on once it is known whether there are huge pages.
    fn after_probe(&mut self)
        requires
            old(self)@.idle(),
            old(self)@.huge_page_mask matches Some(huge) ==> is_mask(huge),
        ensures
            final(self)@ == old(self)@.after_probe(),
            final(self)@.idle(),
            final(self).phase == Phase::Host || final(self).phase == Phase::Finished,
    {
        if self.huge_page_mask.is_none() && !self.options.mlock {
            self.give_up(String::from_str("No page priming operations to perform."));
        } else {
            self.phase = Phase::Host;
        }
    }

    /// Takes what the host found and goes on to the first segment.
    fn hosted(&mut self, host: Host)
        requires
            old(self)@.idle(),
            workable(host, old(self).huge_page_mask),
        ensures
            final(self)@ == old(self)@.hosted(host),
            final(self).wf(),
    {
        let ghost name = program_name_of(host.current_exe);
        let ghost all = object_views(host.objects@);
        self.base_page_mask = mask(host.page_size);
        let mut found = Enumeration::new(program_name(host.current_exe));
        let mut i: usize = 0;
        proof {
            assert(all.take(0) =~= Seq::<LoadedObjectView>::empty());
            assert(views(found.segments@) =~= Seq::<SegmentView>::empty());
        }
        while i < host.objects.len()
            invariant
                i <= host.objects.len(),
                all == object_views(host.objects@),
                workable(host, self.huge_page_mask),
                self.base_page_mask == host.page_size - 1,
                found.next_object_i == i,
                found.program_name@ == name,
                views(found.segments@) == enumerated(Seq::empty(), 0, name, all.take(i as int)),
            decreases host.objects.len() - i,
        {
            proof {
                assert(all.take(i + 1).drop_last() =~= all.take(i as int));
                assert(all.take(i + 1).last() == host.objects[i as int]@);
            }
            found.object(&host.objects[i]);
            i += 1;
        }
        proof {
            assert(all.take(i as int) =~= all);
            lemma_enumerated_workable(
                Seq::empty(),
                0,
                name,
                all,
                self.base_page_mask,
                self.huge_page_mask,
            );
        }
        self.segments = found.segments;
        self.index = 0;
        self.settle();
    }

    /// Notes how the replacing of the current segment ended.
    fn record(&mut self, result: Result<Span, HugeError>)
        requires
            old(self)@.index < old(self)@.segments.len(),
        ensures
            final(self)@ == old(self)@.recorded(result),
            old(self)@.ready() ==> final(self)@.ready(),
    {
        let i = self.index;
        self.segments[i].remap = Some(result);
        assert(self@.segments =~= old(self)@.recorded(result).segments);
    }

    /// Goes on once the current segment was replaced or not.
    fn after_remap(&mut self)
        requires
            old(self)@.ready(),
            old(self)@.index < old(self)@.segments.len(),
        ensures
            final(self)@ == old(self)@.after_remap(),
            final(self).wf(),
        decreases old(self)@.segments.len() - old(self)@.index, 0int,
    {
        if self.options.mlock {
            self.phase = Phase::Locking;
        } else {
            let len = self.segments.len();
            assert(views(self.segments@).len() == len);
            self.index = self.index + 1;
            self.settle();
        }
    }

    /// Goes on from the current segment to the next thing that needs the
    /// host.
    fn settle(&mut self)
        requires
            old(self)@.ready(),
        ensures
            final(self)@ == old(self)@.settle(),
            final(self).wf(),
        decreases old(self)@.segments.len() - old(self)@.index, 1int,
    {
        if self.index >= self.segments.len() {
            let text = report(&self.segments);
            self.note(Severity::Info, text);
            self.phase = Phase::MapsAfter;
            return ;
        }
        match self.huge_page_mask {
            Some(huge) => {
                let segment = &self.segments[self.index];
                assert(self@.segments[self.index as int] == segment@);
                let remap = segment.remap(self.base_page_mask, huge);
                self.remap = remap;
                assert(remap == old(self)@.begun());
                match remap.current() {
                    Step::Ask(_) => {
                        self.phase = Phase::Remapping;
                        assert(self@ =~= old(self)@.settle());
                    },
                    Step::Done(result) => {
                        self.record(result);
                        self.after_remap();
                    },
                }
            },
            None => {
                self.after_remap();
            },
        }
    }

    /// Takes the result of a call made to replace the current segment.
    fn remap_replied(&mut self, reply: Reply, detail: String)
        requires
            old(self).wf(),
            old(self).phase == Phase::Remapping,
        ensures
            final(self)@ == old(self)@.remap_replied(reply, detail@),
            final(self).wf(),
    {
        let failed_before = self.remap.failure.is_some();
        let step = self.remap.step(reply);
        if !failed_before {
            if let Some(e) = self.remap.failure {
                if e.errno().is_some() {
                    let i = self.index;
                    self.segments[i].remap_detail = detail;
                }
            }
        }
        let ghost noted = self@;
        assert(noted.segments =~= if old(self).remap.failure is None && self.remap.failure is Some
            && self.remap.failure->0.code() is Some {
            old(self)@.segments.update(
                self.index as int,
                SegmentView { remap_detail: detail@, ..old(self)@.segments[self.index as int] },
            )
        } else {
            old(self)@.segments
        });
        assert(noted.ready());
        match step {
            Step::Ask(_) => {
                assert(self@ =~= old(self)@.remap_replied(reply, detail@));
            },
            Step::Done(result) => {
                self.record(result);
                self.after_remap();
            },
        }
    }

    /// Takes the result of the call that locks the current segment.
    fn lock_replied(&mut self, reply: Reply, detail: String)
        requires
            old(self).wf(),
            old(self).phase == Phase::Locking,
        ensures
            final(self)@ == old(self)@.lock_replied(reply, detail@),
            final(self).wf(),
    {
        let i = self.index;
        let len = self.segments.len();
        assert(views(self.segments@).len() == len);
        self.segments[i].mlock = Some(mlock(reply));
        if reply.is_err() {
            self.segments[i].mlock_detail = detail;
        }
        self.index = i + 1;
        assert(self@.segments =~= old(self)@.segments.update(
            i as int,
            SegmentView {
                mlock: Some(lock_outcome(reply)),
                mlock_detail: if reply is Err {
                    detail@
                } else {
                    old(self)@.segments[i as int].mlock_detail
                },
                ..old(self)@.segments[i as int]
            },
        ));
        self.settle();
    }

    /// Tells whether the run can take the event: see [`RunView::admits`].
    pub fn admits(&self, event: &Event) -> (yes: bool)
        requires
            self.wf(),
        ensures
            yes == self@.admits(*event),
    {
        match event {
            Event::HugePageSize(FileRead::Data(data)) => {
                match self.phase {
                    Phase::Probe => match parse_huge_page_size(data.as_slice()) {
                        Ok(size) => is_power_of_two_page(size),
                        Err(_) => true,
                    },
                    _ => true,
                }
            },
            Event::Host(host) => {
                match self.phase {
                    Phase::Host => is_workable(host, self.huge_page_mask),
                    _ => true,
                }
            },
            _ => true,
        }
    }

    /// Takes what came of the last request, given the number of threads of
    /// the process and what the operating system says of the error number in
    /// the event, and tells what the host is to do next.
    pub fn advance(&mut self, event: Event, threads: Option<usize>, detail: String) -> (request:
        Request)
        requires
            old(self).wf(),
            old(self)@.admits(event),
        ensures
            final(self)@ == old(self)@.advance(event, threads, detail@),
            final(self).wf(),
            request == final(self)@.request(),
    {
        match event {
            Event::Maps(read) => match self.phase {
                Phase::MapsBefore => {
                    self.gate(read, threads);
                },
                Phase::MapsAfter => {
                    self.note(Severity::Trace, maps_record("after", read));
                    self.phase = Phase::Finished;
                },
                _ => {},
            },
            Event::HugePageSize(read) => match self.phase {
                Phase::Probe => {
                    self.probed(read);
                },
                _ => {},
            },
            Event::Host(host) => match self.phase {
                Phase::Host => {
                    self.hosted(host);
                },
                _ => {},
            },
            Event::Reply(reply) => match self.phase {
                Phase::Remapping => {
                    self.remap_replied(reply, detail);
                },
                Phase::Locking => {
                    self.lock_replied(reply, detail);
                },
                _ => {},
            },
        }
        self.request()
    }

    /// Takes what came of the last request and tells what the host is to do
    /// next. The threads of the process are counted when the first memory map
    /// comes, and the operating system is asked what the error number of a
    /// failed call means: the run goes on as [`RunView::advance`] says,
    /// whatever the two answers are.
    pub fn step(&mut self, event: Event) -> (request: Request)
        requires
            old(self).wf(),
            old(self)@.admits(event),
        ensures
            exists|threads: Option<usize>, detail: Seq<char>|
                {
                    &&& threads matches Some(n) ==> n >= 1
                    &&& final(self)@ == #[trigger] old(self)@.advance(event, threads, detail)
                },
            final(self).wf(),
            request == final(self)@.request(),
    {
        let threads = match (&self.phase, &event) {
            (Phase::MapsBefore, Event::Maps(_)) => thread_count(),
            _ => None,
        };
        let detail = match &event {
            Event::Reply(Err(code)) => os_error_text(*code),
            _ => String::new(),
        };
        let ghost words = detail@;
        let request = self.advance(event, threads, detail);
        assert(self@ == old(self)@.advance(event, threads, words));
        request
    }
}

} // verus!
