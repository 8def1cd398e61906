//! Replacing the pages of one segment by a mapping that huge pages can back.
//!
//! The work is a sequence of calls to the operating system with a decision
//! after each. [`Remap`] holds what has been decided so far: it says which
//! call comes next, takes the call's result, and ends with the range that was
//! replaced or the reason why none was. It makes no call itself.

use vstd::prelude::*;
use vstd::multiset::Multiset;
use crate::geometry::{Geometry, Plan, Span};
use crate::page::{ceil_to, is_mask};
use crate::prot::{is_readable, is_writable, prot_of, readable, transform_prot, writable};

verus! {

/// Why a segment was not replaced.
#[derive(Clone, Copy, Debug, PartialEq, Eq)]
pub enum HugeError {
    /// The segment cannot be read, so its bytes cannot be copied.
    Unreadable,
    /// Other mappings leave no whole huge page to replace.
    Conflict,
    /// The segment can be written, so a copy of it might be stale.
    Writable,
    /// Creating the file in memory failed with this error number.
    MemfdCreateFailed(i32),
    /// Sizing the file failed with this error number.
    FtruncateFailed(i32),
    /// Mapping the file for the copy failed with this error number.
    InitialMmapFailed(i32),
    /// Mapping the file over the segment failed with this error number.
    RemapFailed(i32),
}

/// A call to the operating system.
#[derive(Clone, Copy, Debug, PartialEq, Eq)]
pub enum Call {
    /// Map `len` bytes without access rights at exactly `addr`, private and
    /// anonymous, unless something is mapped there. The result is the address
    /// of the new mapping.
    Reserve { addr: usize, len: usize },
    /// Remove the mapping of `len` bytes at `addr`.
    Unmap { addr: usize, len: usize },
    /// Create a file in memory that huge pages back, closed on exec and named
    /// after the segment's object. The result is its descriptor.
    CreateFile,
    /// Set the size of `file` to `len` bytes.
    Truncate { file: usize, len: usize },
    /// Map `len` bytes of `file` from its start, shared, for reading and
    /// writing, wherever there is room. The result is the address.
    MapShared { file: usize, len: usize },
    /// Copy `len` bytes from `src` to `dst`.
    Copy { dst: usize, src: usize, len: usize },
    /// Map `len` bytes of `file` from its start, private, with protection
    /// `prot`, at exactly `addr`, in place of whatever is mapped there.
    MapFixed { addr: usize, len: usize, prot: i32, file: usize },
    /// Close `file`.
    Close { file: usize },
    /// Lock the `len` bytes at `addr` into memory.
    Lock { addr: usize, len: usize },
}

/// What a call returned: its value, or the error number it failed with.
pub type Reply = Result<usize, i32>;

/// What comes next in a remap.
#[derive(Clone, Copy, Debug, PartialEq, Eq)]
pub enum Step {
    /// This call is to be made, and its result handed to [`Remap::step`].
    Ask(Call),
    /// The remap is over, with the range replaced or the reason for none.
    Done(Result<Span, HugeError>),
}

/// How far a remap has come; each stage but the last waits for the result of
/// one call.
#[derive(Clone, Copy, Debug, PartialEq, Eq)]
pub enum Stage {
    /// Reserving the padding before the segment's pages.
    ReserveStart,
    /// Removing a mapping that was made elsewhere than before the pages.
    StrayStart,
    /// Reserving the padding after the segment's pages.
    ReserveEnd,
    /// Removing a mapping that was made elsewhere than after the pages.
    StrayEnd,
    /// Creating the file in memory.
    Create,
    /// Sizing the file.
    Truncate,
    /// Mapping the file for the copy.
    MapTemp,
    /// Copying the segment's bytes.
    Copy,
    /// Removing the mapping that the copy went through.
    UnmapTemp,
    /// Mapping the file over the segment.
    Replace,
    /// Closing the file after the segment was replaced.
    CloseDone,
    /// Closing the file after a call failed.
    CloseFailed,
    /// Releasing the padding after the pages, after a failure.
    ReleaseEnd,
    /// Releasing the padding before the pages, after a failure.
    ReleaseStart,
    /// Over.
    Done,
}

/// A range of addresses that is claimed by a mapping without access rights,
/// so that nothing else is mapped there until the range is replaced or
/// released.
#[derive(Clone, Copy, Debug, PartialEq, Eq)]
pub struct Reservation {
    /// The range claimed.
    pub range: Span,
}

impl Reservation {
    /// The call that tries to claim a range.
    pub open spec fn claim(range: Span) -> Call {
        Call::Reserve { addr: range.start, len: (range.end - range.start) as usize }
    }

    /// What the result of the claiming call means: the range is reserved if
    /// the mapping was made where it was asked for; a mapping made elsewhere
    /// is to be removed, and nothing is reserved; nor is it if the call
    /// failed.
    pub open spec fn placed(range: Span, reply: Reply) -> Result<Reservation, Option<Call>> {
        match reply {
            Ok(addr) => if addr == range.start {
                Ok(Reservation { range })
            } else {
                Err(Some(Call::Unmap { addr, len: (range.end - range.start) as usize }))
            },
            Err(_) => Err(None),
        }
    }

    /// The call that releases the range.
    pub open spec fn released(self) -> Call {
        Call::Unmap { addr: self.range.start, len: (self.range.end - self.range.start) as usize }
    }

    /// Names the call that tries to claim a range.
    pub fn request(range: Span) -> (call: Call)
        requires
            range.start <= range.end,
        ensures
            call == Reservation::claim(range),
    {
        Call::Reserve { addr: range.start, len: range.end - range.start }
    }

    /// Takes the result of the claiming call: the reservation, or else the
    /// call that removes a mapping made elsewhere, if there is one.
    pub fn new(range: Span, reply: Reply) -> (claimed: Result<Reservation, Option<Call>>)
        requires
            range.start <= range.end,
        ensures
            claimed == Reservation::placed(range, reply),
    {
        match reply {
            Ok(addr) => {
                if addr == range.start {
                    Ok(Reservation { range })
                } else {
                    Err(Some(Call::Unmap { addr, len: range.end - range.start }))
                }
            },
            Err(_) => Err(None),
        }
    }

    /// Names the call that releases the range.
    pub fn release(&self) -> (call: Call)
        requires
            self.range.start <= self.range.end,
        ensures
            call == self.released(),
    {
        Call::Unmap { addr: self.range.start, len: self.range.end - self.range.start }
    }
}

/// A mapping that a remap has made: `len` bytes at `addr`.
pub type Mapping = (usize, usize);

/// The remap of one segment, as far as it has come.
#[derive(Clone, Copy, Debug, PartialEq, Eq)]
pub struct Remap {
    /// The stage reached.
    pub stage: Stage,
    /// The program header flags of the segment.
    pub flags: u32,
    /// Where the segment lies.
    pub geometry: Geometry,
    /// Whether the padding before the pages was reserved.
    pub start_reserved: bool,
    /// Whether the padding after the pages was reserved.
    pub end_reserved: bool,
    /// Where a reservation was made instead of where it was asked for.
    pub stray: usize,
    /// The descriptor of the file in memory.
    pub file: usize,
    /// Where the file is mapped for the copy.
    pub tmp: usize,
    /// Why the remap fails, once that is known.
    pub failure: Option<HugeError>,
}

impl Remap {
    /// The range to replace, as far as the reservations made allow.
    pub open spec fn plan(self) -> Option<Plan> {
        self.geometry.plan(self.start_reserved, self.end_reserved)
    }

    /// The length of the padding before the pages.
    pub open spec fn start_len(self) -> usize {
        (self.geometry.page.start - self.geometry.outer.start) as usize
    }

    /// The length of the padding after the pages.
    pub open spec fn end_len(self) -> usize {
        (self.geometry.outer.end - self.geometry.page.end) as usize
    }

    /// The length of the range to replace.
    pub open spec fn map_len(self) -> usize {
        (self.plan()->0.map.end - self.plan()->0.map.start) as usize
    }

    /// What every remap that [`Remap::begin`] made and [`Remap::step`]
    /// advanced satisfies.
    pub open spec fn wf(self) -> bool {
        &&& self.geometry.sound()
        &&& self.start_reserved ==> self.geometry.has_start_padding()
        &&& self.end_reserved ==> self.geometry.has_end_padding()
        &&& match self.stage {
            Stage::ReserveStart | Stage::StrayStart => {
                &&& self.geometry.has_start_padding()
                &&& !self.start_reserved
                &&& !self.end_reserved
                &&& self.failure is None
            },
            Stage::ReserveEnd | Stage::StrayEnd => {
                &&& self.geometry.has_end_padding()
                &&& !self.end_reserved
                &&& self.failure is None
            },
            Stage::Create
            | Stage::Truncate
            | Stage::MapTemp
            | Stage::Copy
            | Stage::UnmapTemp
            | Stage::Replace
            | Stage::CloseDone => self.plan() is Some && self.failure is None,
            Stage::CloseFailed => self.plan() is Some && self.failure is Some,
            Stage::ReleaseEnd => self.end_reserved && self.failure is Some,
            Stage::ReleaseStart => self.start_reserved && self.failure is Some,
            Stage::Done => self.failure is None ==> self.plan() is Some,
        }
    }

    /// How the remap ends, once it is over.
    pub open spec fn result(self) -> Result<Span, HugeError> {
        match self.failure {
            Some(e) => Err(e),
            None => Ok(self.plan()->0.map),
        }
    }

    /// The call whose result the remap waits for, if it is not over.
    pub open spec fn pending(self) -> Option<Call> {
        let g = self.geometry;
        let plan = self.plan()->0;
        match self.stage {
            Stage::ReserveStart => Some(Reservation::claim(g.start_padding())),
            Stage::StrayStart => Some(Call::Unmap { addr: self.stray, len: self.start_len() }),
            Stage::ReserveEnd => Some(Reservation::claim(g.end_padding())),
            Stage::StrayEnd => Some(Call::Unmap { addr: self.stray, len: self.end_len() }),
            Stage::Create => Some(Call::CreateFile),
            Stage::Truncate => Some(Call::Truncate { file: self.file, len: self.map_len() }),
            Stage::MapTemp => Some(Call::MapShared { file: self.file, len: self.map_len() }),
            Stage::Copy => Some(
                Call::Copy {
                    dst: self.tmp.wrapping_add((plan.copy.start - plan.map.start) as usize),
                    src: plan.copy.start,
                    len: (plan.copy.end - plan.copy.start) as usize,
                },
            ),
            Stage::UnmapTemp => Some(Call::Unmap { addr: self.tmp, len: self.map_len() }),
            Stage::Replace => Some(
                Call::MapFixed {
                    addr: plan.map.start,
                    len: self.map_len(),
                    prot: prot_of(self.flags),
                    file: self.file,
                },
            ),
            Stage::CloseDone | Stage::CloseFailed => Some(Call::Close { file: self.file }),
            Stage::ReleaseEnd => Some(Reservation { range: g.end_padding() }.released()),
            Stage::ReleaseStart => Some(Reservation { range: g.start_padding() }.released()),
            Stage::Done => None,
        }
    }

    /// What comes next: the pending call, or the result.
    pub open spec fn next_step(self) -> Step {
        match self.pending() {
            Some(call) => Step::Ask(call),
            None => Step::Done(self.result()),
        }
    }

    /// The remap once the padding before the pages is settled.
    pub open spec fn after_start(self) -> Remap {
        if self.geometry.has_end_padding() {
            Remap { stage: Stage::ReserveEnd, ..self }
        } else {
            self.after_end()
        }
    }

    /// The remap once both paddings are settled.
    pub open spec fn after_end(self) -> Remap {
        if self.plan() is None {
            self.fail(HugeError::Conflict)
        } else {
            Remap { stage: Stage::Create, ..self }
        }
    }

    /// The remap once it has failed with `e` and holds no file.
    pub open spec fn fail(self, e: HugeError) -> Remap {
        Remap { failure: Some(e), ..self }.release_end()
    }

    /// The remap once it has failed with `e` and still holds the file.
    pub open spec fn close_failed(self, e: HugeError) -> Remap {
        Remap { stage: Stage::CloseFailed, failure: Some(e), ..self }
    }

    /// The failed remap once it is time to release the padding after the
    /// pages: the later reservation goes first.
    pub open spec fn release_end(self) -> Remap {
        if self.end_reserved {
            Remap { stage: Stage::ReleaseEnd, ..self }
        } else {
            self.release_start()
        }
    }

    /// The failed remap once it is time to release the padding before the
    /// pages.
    pub open spec fn release_start(self) -> Remap {
        if self.start_reserved {
            Remap { stage: Stage::ReleaseStart, ..self }
        } else {
            Remap { stage: Stage::Done, ..self }
        }
    }

    /// The remap after the pending call returned `reply`.
    pub open spec fn next(self, reply: Reply) -> Remap {
        match self.stage {
            Stage::ReserveStart => match Reservation::placed(
                self.geometry.start_padding(),
                reply,
            ) {
                Ok(_) => Remap { start_reserved: true, ..self }.after_start(),
                Err(Some(_)) => Remap { stage: Stage::StrayStart, stray: reply->Ok_0, ..self },
                Err(None) => self.after_start(),
            },
            Stage::StrayStart => self.after_start(),
            Stage::ReserveEnd => match Reservation::placed(self.geometry.end_padding(), reply) {
                Ok(_) => Remap { end_reserved: true, ..self }.after_end(),
                Err(Some(_)) => Remap { stage: Stage::StrayEnd, stray: reply->Ok_0, ..self },
                Err(None) => self.after_end(),
            },
            Stage::StrayEnd => self.after_end(),
            Stage::Create => match reply {
                Ok(file) => Remap { stage: Stage::Truncate, file, ..self },
                Err(e) => self.fail(HugeError::MemfdCreateFailed(e)),
            },
            Stage::Truncate => match reply {
                Ok(_) => Remap { stage: Stage::MapTemp, ..self },
                Err(e) => self.close_failed(HugeError::FtruncateFailed(e)),
            },
            Stage::MapTemp => match reply {
                Ok(tmp) => Remap { stage: Stage::Copy, tmp, ..self },
                Err(e) => self.close_failed(HugeError::InitialMmapFailed(e)),
            },
            Stage::Copy => Remap { stage: Stage::UnmapTemp, ..self },
            Stage::UnmapTemp => Remap { stage: Stage::Replace, ..self },
            Stage::Replace => match reply {
                Ok(_) => Remap { stage: Stage::CloseDone, ..self },
                Err(e) => self.close_failed(HugeError::RemapFailed(e)),
            },
            Stage::CloseDone => Remap { stage: Stage::Done, ..self },
            Stage::CloseFailed => self.release_end(),
            Stage::ReleaseEnd => self.release_start(),
            Stage::ReleaseStart => Remap { stage: Stage::Done, ..self },
            Stage::Done => self,
        }
    }

    /// A remap that is over before it began, because the segment is refused.
    pub open spec fn refused(flags: u32, e: HugeError) -> Remap {
        Remap {
            stage: Stage::Done,
            flags,
            geometry: Geometry {
                page: Span { start: 0, end: 0 },
                outer: Span { start: 0, end: 0 },
                inner: Span { start: 0, end: 0 },
            },
            start_reserved: false,
            end_reserved: false,
            stray: 0,
            file: 0,
            tmp: 0,
            failure: Some(e),
        }
    }

    /// The remap of a segment with these flags and this geometry, before any
    /// call was made.
    pub open spec fn started(flags: u32, geometry: Geometry) -> Remap {
        let fresh = Remap {
            stage: Stage::ReserveStart,
            flags,
            geometry,
            start_reserved: false,
            end_reserved: false,
            stray: 0,
            file: 0,
            tmp: 0,
            failure: None,
        };
        if geometry.has_start_padding() {
            fresh
        } else {
            fresh.after_start()
        }
    }

    /// The remap of the segment from `start` to `end`, before any call was
    /// made: over at once for a segment that cannot be read or can be written,
    /// and otherwise waiting for its first call.
    pub open spec fn begun(
        flags: u32,
        start: usize,
        end: usize,
        base_page_mask: usize,
        huge_page_mask: usize,
    ) -> Remap {
        if !readable(flags) {
            Remap::refused(flags, HugeError::Unreadable)
        } else if writable(flags) {
            Remap::refused(flags, HugeError::Writable)
        } else {
            Remap::started(flags, Geometry::at(start, end, base_page_mask, huge_page_mask))
        }
    }

    /// Whether the segment from `start` to `end` with these flags can be
    /// begun on: a segment that is refused always can, another if its huge
    /// pages end within the address space.
    pub open spec fn can_begin(
        flags: u32,
        start: usize,
        end: usize,
        base_page_mask: usize,
        huge_page_mask: usize,
    ) -> bool {
        readable(flags) && !writable(flags) ==> {
            &&& start <= end
            &&& ceil_to(end as int, base_page_mask + 1) <= usize::MAX
            &&& ceil_to(end as int, huge_page_mask + 1) <= usize::MAX
        }
    }

    /// Begins the remap of the segment from `start` to `end`. A segment that
    /// cannot be read or can be written is refused at once: the remap is over
    /// and asks for no call.
    pub fn begin(
        flags: u32,
        start: usize,
        end: usize,
        base_page_mask: usize,
        huge_page_mask: usize,
    ) -> (remap: Remap)
        requires
            is_mask(base_page_mask),
            is_mask(huge_page_mask),
            Remap::can_begin(flags, start, end, base_page_mask, huge_page_mask),
        ensures
            remap.wf(),
            remap == Remap::begun(flags, start, end, base_page_mask, huge_page_mask),
            !readable(flags) || writable(flags) ==> remap.pending() is None,
            !readable(flags) ==> remap == Remap::refused(flags, HugeError::Unreadable),
            readable(flags) && writable(flags) ==> remap == Remap::refused(
                flags,
                HugeError::Writable,
            ),
            readable(flags) && !writable(flags) ==> {
                &&& remap.geometry.describes(
                    start as int,
                    end as int,
                    base_page_mask + 1,
                    huge_page_mask + 1,
                )
                &&& remap == Remap::started(flags, remap.geometry)
            },
    {
        let zero = Span { start: 0, end: 0 };
        let mut remap = Remap {
            stage: Stage::Done,
            flags,
            geometry: Geometry { page: zero, outer: zero, inner: zero },
            start_reserved: false,
            end_reserved: false,
            stray: 0,
            file: 0,
            tmp: 0,
            failure: None,
        };
        if !is_readable(flags) {
            remap.failure = Some(HugeError::Unreadable);
            return remap;
        }
        if is_writable(flags) {
            remap.failure = Some(HugeError::Writable);
            return remap;
        }
        remap.geometry = Geometry::of(start, end, base_page_mask, huge_page_mask);
        remap.stage = Stage::ReserveStart;
        if remap.geometry.outer.start >= remap.geometry.page.start {
            remap.settle_start();
        }
        remap
    }

    /// Goes on once the padding before the pages is settled.
    fn settle_start(&mut self)
        requires
            old(self).geometry.sound(),
            old(self).start_reserved ==> old(self).geometry.has_start_padding(),
            !old(self).end_reserved,
            old(self).failure is None,
        ensures
            *final(self) == old(self).after_start(),
            final(self).wf(),
    {
        if self.geometry.outer.end > self.geometry.page.end {
            self.stage = Stage::ReserveEnd;
        } else {
            self.settle_end();
        }
    }

    /// Goes on once both paddings are settled.
    fn settle_end(&mut self)
        requires
            old(self).geometry.sound(),
            old(self).start_reserved ==> old(self).geometry.has_start_padding(),
            old(self).end_reserved ==> old(self).geometry.has_end_padding(),
            old(self).failure is None,
        ensures
            *final(self) == old(self).after_end(),
            final(self).wf(),
    {
        match self.geometry.select(self.start_reserved, self.end_reserved) {
            None => {
                self.failure = Some(HugeError::Conflict);
                self.release(true);
            },
            Some(_) => {
                self.stage = Stage::Create;
            },
        }
    }

    /// Goes on to release what was reserved: the padding after the pages
    /// first if `both`, then the padding before them.
    fn release(&mut self, both: bool)
        requires
            old(self).geometry.sound(),
            old(self).start_reserved ==> old(self).geometry.has_start_padding(),
            old(self).end_reserved ==> old(self).geometry.has_end_padding(),
            old(self).failure is Some,
        ensures
            *final(self) == if both {
                old(self).release_end()
            } else {
                old(self).release_start()
            },
            final(self).wf(),
    {
        if both && self.end_reserved {
            self.stage = Stage::ReleaseEnd;
        } else if self.start_reserved {
            self.stage = Stage::ReleaseStart;
        } else {
            self.stage = Stage::Done;
        }
    }

    /// Tells what comes next: the call to make, or how the remap ended.
    pub fn current(&self) -> (step: Step)
        requires
            self.wf(),
        ensures
            step == self.next_step(),
    {
        let g = &self.geometry;
        match self.stage {
            Stage::ReserveStart => Step::Ask(
                Reservation::request(Span { start: g.outer.start, end: g.page.start }),
            ),
            Stage::StrayStart => Step::Ask(
                Call::Unmap { addr: self.stray, len: g.page.start - g.outer.start },
            ),
            Stage::ReserveEnd => Step::Ask(
                Reservation::request(Span { start: g.page.end, end: g.outer.end }),
            ),
            Stage::StrayEnd => Step::Ask(
                Call::Unmap { addr: self.stray, len: g.outer.end - g.page.end },
            ),
            Stage::ReleaseEnd => Step::Ask(
                Reservation { range: Span { start: g.page.end, end: g.outer.end } }.release(),
            ),
            Stage::ReleaseStart => Step::Ask(
                Reservation { range: Span { start: g.outer.start, end: g.page.start } }.release(),
            ),
            Stage::Create => Step::Ask(Call::CreateFile),
            Stage::CloseDone | Stage::CloseFailed => Step::Ask(Call::Close { file: self.file }),
            Stage::Done => match self.failure {
                Some(e) => Step::Done(Err(e)),
                None => match g.select(self.start_reserved, self.end_reserved) {
                    Some(plan) => Step::Done(Ok(plan.map)),
                    None => Step::Done(Err(HugeError::Conflict)),
                },
            },
            Stage::Truncate | Stage::MapTemp | Stage::Copy | Stage::UnmapTemp | Stage::Replace => {
                match g.select(self.start_reserved, self.end_reserved) {
                    Some(plan) => {
                        let len = plan.map.end - plan.map.start;
                        match self.stage {
                            Stage::Truncate => Step::Ask(Call::Truncate { file: self.file, len }),
                            Stage::MapTemp => Step::Ask(Call::MapShared { file: self.file, len }),
                            Stage::Copy => Step::Ask(
                                Call::Copy {
                                    dst: self.tmp.wrapping_add(plan.copy.start - plan.map.start),
                                    src: plan.copy.start,
                                    len: plan.copy.end - plan.copy.start,
                                },
                            ),
                            Stage::UnmapTemp => Step::Ask(Call::Unmap { addr: self.tmp, len }),
                            _ => Step::Ask(
                                Call::MapFixed {
                                    addr: plan.map.start,
                                    len,
                                    prot: transform_prot(self.flags),
                                    file: self.file,
                                },
                            ),
                        }
                    },
                    None => Step::Done(Err(HugeError::Conflict)),
                }
            },
        }
    }

    /// Takes the result of the pending call and tells what comes next. Once
    /// the remap is over it stays as it is.
    pub fn step(&mut self, reply: Reply) -> (step: Step)
        requires
            old(self).wf(),
        ensures
            *final(self) == old(self).next(reply),
            final(self).wf(),
            step == final(self).next_step(),
    {
        match self.stage {
            Stage::ReserveStart => {
                let padding = Span {
                    start: self.geometry.outer.start,
                    end: self.geometry.page.start,
                };
                match Reservation::new(padding, reply) {
                    Ok(_) => {
                        self.start_reserved = true;
                        self.settle_start();
                    },
                    Err(Some(Call::Unmap { addr, len })) => {
                        self.stage = Stage::StrayStart;
                        self.stray = addr;
                    },
                    Err(_) => {
                        self.settle_start();
                    },
                }
            },
            Stage::StrayStart => {
                self.settle_start();
            },
            Stage::ReserveEnd => {
                let padding = Span { start: self.geometry.page.end, end: self.geometry.outer.end };
                match Reservation::new(padding, reply) {
                    Ok(_) => {
                        self.end_reserved = true;
                        self.settle_end();
                    },
                    Err(Some(Call::Unmap { addr, len })) => {
                        self.stage = Stage::StrayEnd;
                        self.stray = addr;
                    },
                    Err(_) => {
                        self.settle_end();
                    },
                }
            },
            Stage::StrayEnd => {
                self.settle_end();
            },
            Stage::Create => {
                match reply {
                    Ok(file) => {
                        self.stage = Stage::Truncate;
                        self.file = file;
                    },
                    Err(e) => {
                        self.failure = Some(HugeError::MemfdCreateFailed(e));
                        self.release(true);
                    },
                }
            },
            Stage::Truncate => {
                match reply {
                    Ok(_) => {
                        self.stage = Stage::MapTemp;
                    },
                    Err(e) => {
                        self.stage = Stage::CloseFailed;
                        self.failure = Some(HugeError::FtruncateFailed(e));
                    },
                }
            },
            Stage::MapTemp => {
                match reply {
                    Ok(tmp) => {
                        self.stage = Stage::Copy;
                        self.tmp = tmp;
                    },
                    Err(e) => {
                        self.stage = Stage::CloseFailed;
                        self.failure = Some(HugeError::InitialMmapFailed(e));
                    },
                }
            },
            Stage::Copy => {
                self.stage = Stage::UnmapTemp;
            },
            Stage::UnmapTemp => {
                self.stage = Stage::Replace;
            },
            Stage::Replace => {
                match reply {
                    Ok(_) => {
                        self.stage = Stage::CloseDone;
                    },
                    Err(e) => {
                        self.stage = Stage::CloseFailed;
                        self.failure = Some(HugeError::RemapFailed(e));
                    },
                }
            },
            Stage::CloseDone => {
                self.stage = Stage::Done;
            },
            Stage::CloseFailed => {
                self.release(true);
            },
            Stage::ReleaseEnd => {
                self.release(false);
            },
            Stage::ReleaseStart => {
                self.stage = Stage::Done;
            },
            Stage::Done => {},
        }
        self.current()
    }

    /// The paddings that the remap has reserved.
    pub open spec fn reserved(self) -> Multiset<Mapping> {
        let g = self.geometry;
        let start = if self.start_reserved {
            Multiset::<Mapping>::singleton((g.outer.start, self.start_len()))
        } else {
            Multiset::<Mapping>::empty()
        };
        let end = if self.end_reserved {
            Multiset::<Mapping>::singleton((g.page.end, self.end_len()))
        } else {
            Multiset::<Mapping>::empty()
        };
        start.add(end)
    }

    /// The mappings that the remap has made and that are still there while it
    /// waits for the pending call: they are its to remove, or to have
    /// replaced.
    pub open spec fn owned(self) -> Multiset<Mapping> {
        match self.stage {
            Stage::ReserveStart | Stage::CloseDone | Stage::Done => Multiset::empty(),
            Stage::StrayStart => Multiset::singleton((self.stray, self.start_len())),
            Stage::StrayEnd => self.reserved().insert((self.stray, self.end_len())),
            Stage::Copy | Stage::UnmapTemp => self.reserved().insert((self.tmp, self.map_len())),
            Stage::ReleaseStart => Multiset::singleton(
                (self.geometry.outer.start, self.start_len()),
            ),
            Stage::ReserveEnd
            | Stage::Create
            | Stage::Truncate
            | Stage::MapTemp
            | Stage::Replace
            | Stage::CloseFailed
            | Stage::ReleaseEnd => self.reserved(),
        }
    }

    /// Whether the remap holds a file in memory that is still open while it
    /// waits for the pending call.
    pub open spec fn holds_file(self) -> bool {
        match self.stage {
            Stage::Truncate
            | Stage::MapTemp
            | Stage::Copy
            | Stage::UnmapTemp
            | Stage::Replace
            | Stage::CloseDone
            | Stage::CloseFailed => true,
            _ => false,
        }
    }
}

/// Whether a mapping lies within the `len` bytes at `addr`.
pub open spec fn covered(m: Mapping, addr: usize, len: usize) -> bool {
    addr <= m.0 && m.0 + m.1 <= addr + len
}

/// Whether `after` are the mappings that are left of `before` once `call` has
/// returned `reply`: a successful mapping adds what it mapped, an unmapping
/// removes one mapping that was there, and a mapping in place of others finds
/// all of them within its range and leaves none.
pub open spec fn accounts(
    call: Call,
    reply: Reply,
    before: Multiset<Mapping>,
    after: Multiset<Mapping>,
) -> bool {
    match call {
        Call::Reserve { addr, len } => match reply {
            Ok(at) => after == before.insert((at, len)),
            Err(_) => after == before,
        },
        Call::MapShared { file, len } => match reply {
            Ok(at) => after == before.insert((at, len)),
            Err(_) => after == before,
        },
        Call::Unmap { addr, len } => before.count((addr, len)) > 0 && after == before.remove(
            (addr, len),
        ),
        Call::MapFixed { addr, len, prot, file } => match reply {
            Ok(_) => after == Multiset::<Mapping>::empty() && forall|m: Mapping|
                before.count(m) > 0 ==> #[trigger] covered(m, addr, len),
            Err(_) => after == before,
        },
        _ => after == before,
    }
}

/// Each step accounts for the mappings of the remap: what it owns after a
/// call is what it owned before, changed by what the call did.
pub proof fn lemma_step_accounts(remap: Remap, reply: Reply)
    requires
        remap.wf(),
        remap.pending() is Some,
    ensures
        accounts(remap.pending()->0, reply, remap.owned(), remap.next(reply).owned()),
        remap.next(reply).holds_file() == match remap.pending()->0 {
            Call::CreateFile => reply is Ok,
            Call::Close { file } => false,
            _ => remap.holds_file(),
        },
{
    let after = remap.next(reply);
    let g = remap.geometry;
    let start_pad: Mapping = (g.outer.start, remap.start_len());
    let end_pad: Mapping = (g.page.end, remap.end_len());
    let none = Multiset::<Mapping>::empty();
    assert(none.add(none) =~= none);
    assert(Multiset::singleton(start_pad).add(none) =~= none.insert(start_pad));
    assert(none.add(Multiset::singleton(end_pad)) =~= none.insert(end_pad));
    assert(Multiset::singleton(start_pad).add(Multiset::singleton(end_pad))
        =~= Multiset::singleton(start_pad).insert(end_pad));
    assert(Multiset::singleton(start_pad) =~= none.insert(start_pad));
    match remap.stage {
        Stage::StrayStart | Stage::StrayEnd => {
            let m: Mapping = (
                remap.stray,
                if remap.stage == Stage::StrayStart {
                    remap.start_len()
                } else {
                    remap.end_len()
                },
            );
            assert(remap.owned().count(m) > 0);
            assert(after.owned() =~= remap.owned().remove(m));
        },
        Stage::UnmapTemp => {
            let m: Mapping = (remap.tmp, remap.map_len());
            assert(after.owned() =~= remap.owned().remove(m));
        },
        Stage::ReleaseEnd => {
            assert(after.owned() =~= remap.owned().remove(end_pad));
        },
        Stage::ReleaseStart => {
            assert(after.owned() =~= remap.owned().remove(start_pad));
        },
        Stage::Replace => {
            if reply is Ok {
                let plan = remap.plan()->0;
                assert forall|m: Mapping| remap.owned().count(m) > 0 implies #[trigger] covered(
                    m,
                    plan.map.start,
                    remap.map_len(),
                ) by {
                    assert(m == start_pad || m == end_pad);
                }
            } else {
                assert(after.owned() =~= remap.owned());
            }
        },
        Stage::ReserveStart | Stage::ReserveEnd | Stage::MapTemp => {
            match reply {
                Ok(at) => {
                    let len = match remap.stage {
                        Stage::ReserveStart => remap.start_len(),
                        Stage::ReserveEnd => remap.end_len(),
                        _ => remap.map_len(),
                    };
                    assert(after.owned() =~= remap.owned().insert((at, len)));
                },
                Err(_) => {
                    assert(after.owned() =~= remap.owned());
                },
            }
        },
        _ => {
            assert(after.owned() =~= remap.owned());
        },
    }
}

/// A remap that is over owns no mapping and holds no file, whether it
/// replaced the segment or failed.
pub proof fn lemma_nothing_owned_at_the_end(remap: Remap)
    requires
        remap.wf(),
        remap.pending() is None,
    ensures
        remap.owned() == Multiset::<Mapping>::empty(),
        !remap.holds_file(),
{
}

/// A remap that was just begun is well formed and owns nothing yet.
pub proof fn lemma_begun(
    flags: u32,
    start: usize,
    end: usize,
    base_page_mask: usize,
    huge_page_mask: usize,
)
    requires
        is_mask(base_page_mask),
        is_mask(huge_page_mask),
        Remap::can_begin(flags, start, end, base_page_mask, huge_page_mask),
    ensures
        Remap::begun(flags, start, end, base_page_mask, huge_page_mask).wf(),
        Remap::begun(flags, start, end, base_page_mask, huge_page_mask).owned() == Multiset::<
            Mapping,
        >::empty(),
        !Remap::begun(flags, start, end, base_page_mask, huge_page_mask).holds_file(),
{
    let remap = Remap::begun(flags, start, end, base_page_mask, huge_page_mask);
    if readable(flags) && !writable(flags) {
        Geometry::lemma_at(start, end, base_page_mask, huge_page_mask);
    }
    let none = Multiset::<Mapping>::empty();
    assert(none.add(none) =~= none);
    assert(remap.owned() =~= none);
}

/// A step keeps a remap well formed.
pub proof fn lemma_next_wf(remap: Remap, reply: Reply)
    requires
        remap.wf(),
    ensures
        remap.next(reply).wf(),
{
}

/// The mappings that are left of `before` once `call` has returned `reply`,
/// whoever made the call: a successful mapping adds what it mapped, an
/// unmapping removes what it names, and a mapping in place of others removes
/// those within its range.
pub open spec fn left_after(call: Call, reply: Reply, before: Multiset<Mapping>) -> Multiset<
    Mapping,
> {
    match call {
        Call::Reserve { addr, len } => match reply {
            Ok(at) => before.insert((at, len)),
            Err(_) => before,
        },
        Call::MapShared { file, len } => match reply {
            Ok(at) => before.insert((at, len)),
            Err(_) => before,
        },
        Call::Unmap { addr, len } => before.remove((addr, len)),
        Call::MapFixed { addr, len, prot, file } => match reply {
            Ok(_) => before.filter(|m: Mapping| !covered(m, addr, len)),
            Err(_) => before,
        },
        _ => before,
    }
}

/// The remap after its calls returned `replies`, one after the other, as far
/// as it asked for calls.
pub open spec fn after_all(remap: Remap, replies: Seq<Reply>) -> Remap
    decreases replies.len(),
{
    if replies.len() == 0 || remap.pending() is None {
        remap
    } else {
        after_all(remap.next(replies[0]), replies.drop_first())
    }
}

/// The mappings that are left of `held` once the calls of the remap returned
/// `replies`, one after the other.
pub open spec fn ledger(remap: Remap, replies: Seq<Reply>, held: Multiset<Mapping>) -> Multiset<
    Mapping,
>
    decreases replies.len(),
{
    if replies.len() == 0 || remap.pending() is None {
        held
    } else {
        ledger(
            remap.next(replies[0]),
            replies.drop_first(),
            left_after(remap.pending()->0, replies[0], held),
        )
    }
}

/// Whatever its calls return, a remap keeps account of the mappings that its
/// calls make: what is left of them after any number of calls is what the
/// remap owns then, and it holds a file exactly while one is open.
pub proof fn lemma_ledger_is_owned(remap: Remap, replies: Seq<Reply>)
    requires
        remap.wf(),
    ensures
        after_all(remap, replies).wf(),
        ledger(remap, replies, remap.owned()) == after_all(remap, replies).owned(),
    decreases replies.len(),
{
    if replies.len() > 0 && remap.pending() is Some {
        let reply = replies[0];
        lemma_step_accounts(remap, reply);
        lemma_next_wf(remap, reply);
        let call = remap.pending()->0;
        let after = remap.next(reply).owned();
        if call is MapFixed && reply is Ok {
            assert(left_after(call, reply, remap.owned()) =~= after);
        }
        assert(left_after(call, reply, remap.owned()) == after);
        lemma_ledger_is_owned(remap.next(reply), replies.drop_first());
    }
}

/// Nothing survives a remap: once the remap of a segment is over, whether the
/// segment was replaced or any call failed on the way, none of the mappings
/// that its calls made is left, and no file is open. What was reserved was
/// released or replaced, a mapping made elsewhere than asked for was removed,
/// and so was the mapping that the copy went through.
pub proof fn lemma_nothing_survives(
    flags: u32,
    start: usize,
    end: usize,
    base_page_mask: usize,
    huge_page_mask: usize,
    replies: Seq<Reply>,
)
    requires
        is_mask(base_page_mask),
        is_mask(huge_page_mask),
        Remap::can_begin(flags, start, end, base_page_mask, huge_page_mask),
        after_all(
            Remap::begun(flags, start, end, base_page_mask, huge_page_mask),
            replies,
        ).pending() is None,
    ensures
        ledger(
            Remap::begun(flags, start, end, base_page_mask, huge_page_mask),
            replies,
            Multiset::empty(),
        ) == Multiset::<Mapping>::empty(),
        !after_all(
            Remap::begun(flags, start, end, base_page_mask, huge_page_mask),
            replies,
        ).holds_file(),
{
    let remap = Remap::begun(flags, start, end, base_page_mask, huge_page_mask);
    lemma_begun(flags, start, end, base_page_mask, huge_page_mask);
    lemma_ledger_is_owned(remap, replies);
    lemma_nothing_owned_at_the_end(after_all(remap, replies));
}

/// A remap that is not over comes to an end: a measure of the stage goes down
/// with every step.
pub open spec fn steps_left(stage: Stage) -> nat {
    match stage {
        Stage::ReserveStart => 14,
        Stage::StrayStart => 13,
        Stage::ReserveEnd => 12,
        Stage::StrayEnd => 11,
        Stage::Create => 10,
        Stage::Truncate => 9,
        Stage::MapTemp => 8,
        Stage::Copy => 7,
        Stage::UnmapTemp => 6,
        Stage::Replace => 5,
        Stage::CloseDone => 4,
        Stage::CloseFailed => 3,
        Stage::ReleaseEnd => 2,
        Stage::ReleaseStart => 1,
        Stage::Done => 0,
    }
}

/// Every step brings a remap closer to its end, so a remap takes at most
/// fourteen calls.
pub proof fn lemma_step_progresses(remap: Remap, reply: Reply)
    requires
        remap.pending() is Some,
    ensures
        steps_left(remap.next(reply).stage) < steps_left(remap.stage),
{
}

} // verus!
