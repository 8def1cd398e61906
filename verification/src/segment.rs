//! The loadable segments of the objects in a process, and how they are
//! gathered from what the dynamic linker reports.

use vstd::prelude::*;
use crate::geometry::Span;
use crate::page::{ceil_to, checked_round_up, is_mask};
use crate::prot::{is_readable, is_writable, readable, writable};
use crate::remap::{Call, HugeError, Remap, Reply, Step};

verus! {

/// The program header type of a loadable segment: `libc::PT_LOAD`, which the
/// crate defines as 1.
#[verifier::external_body]
fn pt_load() -> (kind: u32)
    ensures
        kind == 1,
{
    libc::PT_LOAD
}

/// The length that a path cannot reach, its end marker counted:
/// `libc::PATH_MAX`, which the crate defines as 4096 on Linux.
#[verifier::external_body]
fn path_max() -> (len: usize)
    ensures
        len == 4096,
{
    libc::PATH_MAX as usize
}

/// The name that the main program goes by where its path is not known.
pub open spec fn fallback_name() -> Seq<u8> {
    seq![109u8, 97u8, 105u8, 110u8]
}

/// The number of segments that an enumeration keeps; it drops what comes
/// after them.
pub open spec fn segment_limit() -> nat {
    1024
}

/// How many bytes of `name`, from `from` on, belong to the path: those before
/// the first zero byte, and no more than fit with an end marker.
pub open spec fn path_end(name: Seq<u8>, from: int) -> int
    decreases name.len() - from,
{
    if 0 <= from < name.len() && from < 4095 && name[from] != 0 {
        path_end(name, from + 1)
    } else {
        from
    }
}

/// The path that is kept of an object's name.
pub open spec fn path_of(name: Seq<u8>) -> Seq<u8> {
    name.take(path_end(name, 0))
}

/// One entry of an object's program header table, as far as it matters here.
#[derive(Clone, Copy, Debug, PartialEq, Eq)]
pub struct ProgramHeader {
    /// The type of the entry.
    pub kind: u32,
    /// The protection flags of the segment.
    pub flags: u32,
    /// Where the segment starts, relative to the object's base.
    pub vaddr: usize,
    /// The size of the segment in memory.
    pub memsz: usize,
}

impl ProgramHeader {
    /// Whether the entry describes a loadable segment.
    pub open spec fn is_load(self) -> bool {
        self.kind == 1
    }

    /// Where the segment starts in an object loaded at `base`.
    pub open spec fn start(self, base: usize) -> usize {
        base.wrapping_add(self.vaddr)
    }

    /// Whether the segment ends within the address space.
    pub open spec fn fits(self, base: usize) -> bool {
        self.start(base) + self.memsz <= usize::MAX
    }

    /// The addresses of the segment in an object loaded at `base`.
    pub open spec fn addrs(self, base: usize) -> Span {
        Span { start: self.start(base), end: (self.start(base) + self.memsz) as usize }
    }

    /// Whether the entry can be worked on, if it describes a loadable segment:
    /// the segment ends within the address space, and so do its pages where
    /// it is one that can be replaced and there are huge pages.
    pub open spec fn workable(self, base: usize, base_page_mask: usize, huge_page_mask: Option<usize>)
        -> bool {
        self.is_load() ==> {
            &&& self.fits(base)
            &&& huge_page_mask matches Some(huge) ==> SegmentView::found(
                0,
                Seq::empty(),
                base,
                self,
            ).roundable(base_page_mask, huge)
        }
    }

    /// Tells whether the entry can be worked on.
    pub fn is_workable(&self, base: usize, base_page_mask: usize, huge_page_mask: Option<usize>)
        -> (yes: bool)
        requires
            is_mask(base_page_mask),
            huge_page_mask matches Some(huge) ==> is_mask(huge),
        ensures
            yes == self.workable(base, base_page_mask, huge_page_mask),
    {
        if self.kind != pt_load() {
            return true;
        }
        let end = match base.wrapping_add(self.vaddr).checked_add(self.memsz) {
            Some(end) => end,
            None => {
                return false;
            },
        };
        match huge_page_mask {
            Some(huge) => {
                if is_readable(self.flags) && !is_writable(self.flags) {
                    checked_round_up(end, base_page_mask).is_some() && checked_round_up(
                        end,
                        huge,
                    ).is_some()
                } else {
                    true
                }
            },
            None => true,
        }
    }
}

/// A loaded object as the dynamic linker reports it.
#[derive(Clone, Debug, PartialEq, Eq)]
pub struct LoadedObject {
    /// The name that the dynamic linker gives; empty for the main program.
    pub name: Vec<u8>,
    /// The address that the object is loaded at.
    pub base: usize,
    /// The object's program headers.
    pub headers: Vec<ProgramHeader>,
}

/// A loaded object in specifications.
pub struct LoadedObjectView {
    pub name: Seq<u8>,
    pub base: usize,
    pub headers: Seq<ProgramHeader>,
}

impl View for LoadedObject {
    type V = LoadedObjectView;

    open spec fn view(&self) -> LoadedObjectView {
        LoadedObjectView { name: self.name@, base: self.base, headers: self.headers@ }
    }
}

impl LoadedObjectView {
    /// Whether each loadable segment of the object ends within the address
    /// space.
    pub open spec fn fits(self) -> bool {
        forall|i: int|
            0 <= i < self.headers.len() && (#[trigger] self.headers[i]).is_load()
                ==> self.headers[i].fits(self.base)
    }

    /// Whether each program header of the object can be worked on.
    pub open spec fn workable(self, base_page_mask: usize, huge_page_mask: Option<usize>) -> bool {
        forall|i: int|
            0 <= i < self.headers.len() ==> (#[trigger] self.headers[i]).workable(
                self.base,
                base_page_mask,
                huge_page_mask,
            )
    }
}

impl LoadedObject {
    /// Tells whether each program header of the object can be worked on.
    pub fn is_workable(&self, base_page_mask: usize, huge_page_mask: Option<usize>) -> (yes: bool)
        requires
            is_mask(base_page_mask),
            huge_page_mask matches Some(huge) ==> is_mask(huge),
        ensures
            yes == self@.workable(base_page_mask, huge_page_mask),
    {
        let mut i: usize = 0;
        while i < self.headers.len()
            invariant
                i <= self.headers.len(),
                is_mask(base_page_mask),
                huge_page_mask matches Some(huge) ==> is_mask(huge),
                forall|j: int|
                    0 <= j < i ==> (#[trigger] self@.headers[j]).workable(
                        self.base,
                        base_page_mask,
                        huge_page_mask,
                    ),
            decreases self.headers.len() - i,
        {
            if !self.headers[i].is_workable(self.base, base_page_mask, huge_page_mask) {
                assert(!self@.headers[i as int].workable(
                    self.base,
                    base_page_mask,
                    huge_page_mask,
                ));
                return false;
            }
            i += 1;
        }
        true
    }
}

/// A loadable segment of a loaded object, with what was done to it.
#[derive(Clone, Debug, PartialEq, Eq)]
pub struct Segment {
    /// Which object the segment belongs to, counted from the main program,
    /// which is object 0.
    pub object_i: usize,
    /// The protection flags of the segment.
    pub flags: u32,
    /// The addresses of the segment.
    pub addrs: Span,
    /// How replacing the segment ended, if it was tried.
    pub remap: Option<Result<Span, HugeError>>,
    /// What the operating system says of the error number in `remap`.
    pub remap_detail: String,
    /// How locking the segment ended, if it was tried: done, or the error
    /// number.
    pub mlock: Option<Result<(), i32>>,
    /// What the operating system says of the error number in `mlock`.
    pub mlock_detail: String,
    /// The path of the object, without an end marker.
    pub path: Vec<u8>,
}

/// A segment in specifications.
pub struct SegmentView {
    pub object_i: usize,
    pub flags: u32,
    pub addrs: Span,
    pub remap: Option<Result<Span, HugeError>>,
    pub remap_detail: Seq<char>,
    pub mlock: Option<Result<(), i32>>,
    pub mlock_detail: Seq<char>,
    pub path: Seq<u8>,
}

impl View for Segment {
    type V = SegmentView;

    open spec fn view(&self) -> SegmentView {
        SegmentView {
            object_i: self.object_i,
            flags: self.flags,
            addrs: self.addrs,
            remap: self.remap,
            remap_detail: self.remap_detail@,
            mlock: self.mlock,
            mlock_detail: self.mlock_detail@,
            path: self.path@,
        }
    }
}

/// The segments of a list in specifications.
pub open spec fn views(segments: Seq<Segment>) -> Seq<SegmentView> {
    segments.map_values(|s: Segment| s@)
}

impl Segment {
    /// Begins replacing the segment by a mapping that huge pages can back. A
    /// segment that cannot be read or can be written is refused at once.
    pub fn remap(&self, base_page_mask: usize, huge_page_mask: usize) -> (remap: Remap)
        requires
            is_mask(base_page_mask),
            is_mask(huge_page_mask),
            self@.workable(base_page_mask, Some(huge_page_mask)),
        ensures
            remap == self@.begun(base_page_mask, huge_page_mask),
            remap.wf(),
            !readable(self.flags) ==> remap.next_step() == Step::Done(Err(HugeError::Unreadable)),
            readable(self.flags) && writable(self.flags) ==> remap.next_step() == Step::Done(
                Err(HugeError::Writable),
            ),
    {
        Remap::begin(self.flags, self.addrs.start, self.addrs.end, base_page_mask, huge_page_mask)
    }

    /// Names the call that locks the segment into memory: the segment's own
    /// addresses are locked, whatever range was replaced.
    pub fn lock(&self) -> (call: Call)
        requires
            self.addrs.start <= self.addrs.end,
        ensures
            call == self@.lock_call(),
    {
        Call::Lock { addr: self.addrs.start, len: self.addrs.end - self.addrs.start }
    }
}

/// What the result of the locking call means for a segment: it is locked, or
/// the call failed with an error number.
pub open spec fn lock_outcome(reply: Reply) -> Result<(), i32> {
    match reply {
        Ok(_) => Ok(()),
        Err(e) => Err(e),
    }
}

/// Takes the result of the locking call.
pub fn mlock(reply: Reply) -> (outcome: Result<(), i32>)
    ensures
        outcome == lock_outcome(reply),
{
    match reply {
        Ok(_) => Ok(()),
        Err(e) => Err(e),
    }
}

impl SegmentView {
    /// The replacing of the segment before any call was made.
    pub open spec fn begun(self, base_page_mask: usize, huge_page_mask: usize) -> Remap {
        Remap::begun(self.flags, self.addrs.start, self.addrs.end, base_page_mask, huge_page_mask)
    }

    /// The call that locks the segment into memory.
    pub open spec fn lock_call(self) -> Call {
        Call::Lock {
            addr: self.addrs.start,
            len: (self.addrs.end - self.addrs.start) as usize,
        }
    }

    /// The segment that a loadable program header describes, before anything
    /// was done to it.
    pub open spec fn found(object_i: usize, path: Seq<u8>, base: usize, header: ProgramHeader)
        -> SegmentView {
        SegmentView {
            object_i,
            flags: header.flags,
            addrs: header.addrs(base),
            remap: None,
            remap_detail: Seq::empty(),
            mlock: None,
            mlock_detail: Seq::empty(),
            path,
        }
    }

    /// Whether the segment can be worked on: it does not end before it
    /// starts, and it can be rounded to pages where there are huge pages.
    pub open spec fn workable(self, base_page_mask: usize, huge_page_mask: Option<usize>) -> bool {
        &&& self.addrs.start <= self.addrs.end
        &&& huge_page_mask matches Some(huge) ==> self.roundable(base_page_mask, huge)
    }

    /// Whether the segment can be rounded to pages with these masks within
    /// the address space, if it is one that can be replaced at all.
    pub open spec fn roundable(self, base_page_mask: usize, huge_page_mask: usize) -> bool {
        readable(self.flags) && !writable(self.flags) ==> {
            &&& ceil_to(self.addrs.end as int, base_page_mask + 1) <= usize::MAX
            &&& ceil_to(self.addrs.end as int, huge_page_mask + 1) <= usize::MAX
        }
    }
}

/// The segments known after the program headers of one object were gone
/// through: those known before, and each loadable segment of the object for
/// which there was room.
pub open spec fn gathered(
    before: Seq<SegmentView>,
    object_i: usize,
    path: Seq<u8>,
    base: usize,
    headers: Seq<ProgramHeader>,
) -> Seq<SegmentView>
    decreases headers.len(),
{
    if headers.len() == 0 {
        before
    } else {
        let earlier = gathered(before, object_i, path, base, headers.drop_last());
        if headers.last().is_load() && earlier.len() < segment_limit() {
            earlier.push(SegmentView::found(object_i, path, base, headers.last()))
        } else {
            earlier
        }
    }
}

/// The name that an object's segments are filed under: the program's own for
/// the first object, whose reported name is empty, and the reported name for
/// the others.
pub open spec fn name_used(object_i: usize, program_name: Seq<u8>, reported: Seq<u8>) -> Seq<u8> {
    if object_i == 0 {
        program_name
    } else {
        reported
    }
}

/// The segments known after all of `objects` were gone through, the first of
/// them being object number `first`.
pub open spec fn enumerated(
    before: Seq<SegmentView>,
    first: int,
    program_name: Seq<u8>,
    objects: Seq<LoadedObjectView>,
) -> Seq<SegmentView>
    decreases objects.len(),
{
    if objects.len() == 0 {
        before
    } else {
        let earlier = enumerated(before, first, program_name, objects.drop_last());
        let object_i = (first + objects.len() - 1) as usize;
        gathered(
            earlier,
            object_i,
            path_of(name_used(object_i, program_name, objects.last().name)),
            objects.last().base,
            objects.last().headers,
        )
    }
}

/// Going through an object keeps the segments known before, in their order,
/// and keeps no more segments than the limit, unless there were more before.
pub proof fn lemma_gathered_extends(
    before: Seq<SegmentView>,
    object_i: usize,
    path: Seq<u8>,
    base: usize,
    headers: Seq<ProgramHeader>,
)
    ensures
        before.len() <= gathered(before, object_i, path, base, headers).len(),
        gathered(before, object_i, path, base, headers).take(before.len() as int) == before,
        gathered(before, object_i, path, base, headers).len() <= before.len() + headers.len(),
        before.len() <= segment_limit() ==> gathered(before, object_i, path, base, headers).len()
            <= segment_limit(),
    decreases headers.len(),
{
    let all = gathered(before, object_i, path, base, headers);
    if headers.len() > 0 {
        lemma_gathered_extends(before, object_i, path, base, headers.drop_last());
        let earlier = gathered(before, object_i, path, base, headers.drop_last());
        assert(all.take(before.len() as int) =~= earlier.take(before.len() as int));
    } else {
        assert(all.take(before.len() as int) =~= before);
    }
}

/// An enumeration keeps no more segments than the limit.
pub proof fn lemma_enumerated_bounded(
    first: int,
    program_name: Seq<u8>,
    objects: Seq<LoadedObjectView>,
)
    ensures
        enumerated(Seq::empty(), first, program_name, objects).len() <= segment_limit(),
    decreases objects.len(),
{
    if objects.len() > 0 {
        lemma_enumerated_bounded(first, program_name, objects.drop_last());
        let object_i = (first + objects.len() - 1) as usize;
        lemma_gathered_extends(
            enumerated(Seq::empty(), first, program_name, objects.drop_last()),
            object_i,
            path_of(name_used(object_i, program_name, objects.last().name)),
            objects.last().base,
            objects.last().headers,
        );
    }
}

/// The loadable segments of headers that can be worked on can be worked on.
pub proof fn lemma_gathered_workable(
    before: Seq<SegmentView>,
    object_i: usize,
    path: Seq<u8>,
    base: usize,
    headers: Seq<ProgramHeader>,
    base_page_mask: usize,
    huge_page_mask: Option<usize>,
)
    requires
        forall|i: int|
            0 <= i < before.len() ==> (#[trigger] before[i]).workable(
                base_page_mask,
                huge_page_mask,
            ),
        forall|i: int|
            0 <= i < headers.len() ==> (#[trigger] headers[i]).workable(
                base,
                base_page_mask,
                huge_page_mask,
            ),
    ensures
        forall|i: int|
            0 <= i < gathered(before, object_i, path, base, headers).len() ==> (#[trigger] gathered(
                before,
                object_i,
                path,
                base,
                headers,
            )[i]).workable(base_page_mask, huge_page_mask),
    decreases headers.len(),
{
    if headers.len() > 0 {
        let rest = headers.drop_last();
        assert forall|i: int| 0 <= i < rest.len() implies (#[trigger] rest[i]).workable(
            base,
            base_page_mask,
            huge_page_mask,
        ) by {
            assert(rest[i] == headers[i]);
        }
        lemma_gathered_workable(before, object_i, path, base, rest, base_page_mask, huge_page_mask);
        let earlier = gathered(before, object_i, path, base, rest);
        let all = gathered(before, object_i, path, base, headers);
        let last = headers[headers.len() - 1];
        assert(last == headers.last());
        assert(last.workable(base, base_page_mask, huge_page_mask));
        assert forall|i: int| 0 <= i < all.len() implies (#[trigger] all[i]).workable(
            base_page_mask,
            huge_page_mask,
        ) by {
            if i < earlier.len() {
                assert(all[i] == earlier[i]);
            } else {
                assert(all[i] == SegmentView::found(object_i, path, base, last));
                assert(last.is_load());
            }
        }
    }
}

/// The segments of objects that can be worked on can be worked on.
pub proof fn lemma_enumerated_workable(
    before: Seq<SegmentView>,
    first: int,
    program_name: Seq<u8>,
    objects: Seq<LoadedObjectView>,
    base_page_mask: usize,
    huge_page_mask: Option<usize>,
)
    requires
        forall|i: int|
            0 <= i < before.len() ==> (#[trigger] before[i]).workable(
                base_page_mask,
                huge_page_mask,
            ),
        forall|i: int|
            0 <= i < objects.len() ==> (#[trigger] objects[i]).workable(
                base_page_mask,
                huge_page_mask,
            ),
    ensures
        forall|i: int|
            0 <= i < enumerated(before, first, program_name, objects).len() ==> (
            #[trigger] enumerated(before, first, program_name, objects)[i]).workable(
                base_page_mask,
                huge_page_mask,
            ),
    decreases objects.len(),
{
    if objects.len() > 0 {
        let rest = objects.drop_last();
        assert forall|i: int| 0 <= i < rest.len() implies (#[trigger] rest[i]).workable(
            base_page_mask,
            huge_page_mask,
        ) by {
            assert(rest[i] == objects[i]);
        }
        lemma_enumerated_workable(
            before,
            first,
            program_name,
            rest,
            base_page_mask,
            huge_page_mask,
        );
        let last = objects[objects.len() - 1];
        assert(last == objects.last());
        assert(last.workable(base_page_mask, huge_page_mask));
        let object_i = (first + objects.len() - 1) as usize;
        lemma_gathered_workable(
            enumerated(before, first, program_name, rest),
            object_i,
            path_of(name_used(object_i, program_name, last.name)),
            last.base,
            last.headers,
            base_page_mask,
            huge_page_mask,
        );
    }
}

/// The name of the running program: the path of its executable where that is
/// known, and the fallback where it is not.
pub open spec fn program_name_of(current_exe: Option<Vec<u8>>) -> Seq<u8> {
    match current_exe {
        Some(path) => path@,
        None => fallback_name(),
    }
}

/// The name of the running program: the path of its executable where that is
/// known, and `main` where it is not.
pub fn program_name(current_exe: Option<Vec<u8>>) -> (name: Vec<u8>)
    ensures
        name@ == program_name_of(current_exe),
{
    match current_exe {
        Some(path) => path,
        None => {
            let mut name: Vec<u8> = Vec::new();
            name.push(109u8);
            name.push(97u8);
            name.push(105u8);
            name.push(110u8);
            assert(name@ =~= fallback_name());
            name
        },
    }
}

/// Cuts an object's name down to the path that is kept of it.
pub fn path_from_name(name: &Vec<u8>) -> (path: Vec<u8>)
    ensures
        path@ == path_of(name@),
{
    let limit: usize = path_max() - 1;
    let mut path: Vec<u8> = Vec::new();
    let mut i: usize = 0;
    while i < name.len() && i < limit && name[i] != 0
        invariant
            limit == 4095,
            i <= name.len(),
            path@ == name@.take(i as int),
            path_end(name@, i as int) == path_end(name@, 0),
        decreases name.len() - i,
    {
        path.push(name[i]);
        i += 1;
        assert(path@ =~= name@.take(i as int));
    }
    path
}

/// The segments and the object count of an enumeration in progress.
pub struct Enumeration {
    /// The number of objects gone through.
    pub next_object_i: usize,
    /// The name of the running program.
    pub program_name: Vec<u8>,
    /// The segments kept so far.
    pub segments: Vec<Segment>,
}

impl Enumeration {
    /// An enumeration that has seen no object.
    pub fn new(program_name: Vec<u8>) -> (fresh: Enumeration)
        ensures
            fresh.next_object_i == 0,
            fresh.program_name@ == program_name@,
            fresh.segments@.len() == 0,
    {
        Enumeration { next_object_i: 0, program_name, segments: Vec::new() }
    }

    /// Goes through the program headers of the next object and keeps its
    /// loadable segments, as long as there is room for them.
    pub fn object(&mut self, object: &LoadedObject)
        requires
            old(self).next_object_i < usize::MAX,
            object@.fits(),
        ensures
            final(self).next_object_i == old(self).next_object_i + 1,
            final(self).program_name@ == old(self).program_name@,
            views(final(self).segments@) == gathered(
                views(old(self).segments@),
                old(self).next_object_i,
                path_of(
                    name_used(old(self).next_object_i, old(self).program_name@, object.name@),
                ),
                object.base,
                object.headers@,
            ),
    {
        let object_i = self.next_object_i;
        let path = if object_i == 0 {
            path_from_name(&self.program_name)
        } else {
            path_from_name(&object.name)
        };
        let kind = pt_load();
        let mut i: usize = 0;
        proof {
            assert(object.headers@.take(0) =~= Seq::<ProgramHeader>::empty());
        }
        while i < object.headers.len()
            invariant
                i <= object.headers.len(),
                kind == 1,
                object@.fits(),
                path@ == path_of(
                    name_used(object_i, old(self).program_name@, object.name@),
                ),
                self.next_object_i == old(self).next_object_i,
                self.program_name@ == old(self).program_name@,
                views(self.segments@) == gathered(
                    views(old(self).segments@),
                    object_i,
                    path@,
                    object.base,
                    object.headers@.take(i as int),
                ),
            decreases object.headers.len() - i,
        {
            let header = object.headers[i];
            let ghost before = self.segments@;
            proof {
                assert(object.headers@.take(i + 1).drop_last() =~= object.headers@.take(i as int));
                assert(object.headers@.take(i + 1).last() == header);
                assert(object@.headers[i as int] == header);
            }
            if header.kind == kind {
                let start = object.base.wrapping_add(header.vaddr);
                let end = start + header.memsz;
                if self.segments.len() < 1024 {
                    let segment = Segment {
                        object_i,
                        flags: header.flags,
                        addrs: Span { start, end },
                        remap: None,
                        remap_detail: String::new(),
                        mlock: None,
                        mlock_detail: String::new(),
                        path: path.clone(),
                    };
                    self.segments.push(segment);
                    assert(views(self.segments@) =~= views(before).push(
                        SegmentView::found(object_i, path@, object.base, header),
                    ));
                }
            }
            i += 1;
        }
        proof {
            assert(object.headers@.take(i as int) =~= object.headers@);
        }
        self.next_object_i = object_i + 1;
    }
}

} // verus!
