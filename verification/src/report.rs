//! The record that sums up what was done to each segment.

use vstd::prelude::*;
use vstd::string::*;
use crate::prot::{debug_prot, triad};
use crate::remap::HugeError;
use crate::segment::{views, Segment, SegmentView};
use crate::text::{address, address_text, lossy, lossy_text, os_error_text};

verus! {

impl HugeError {
    /// The error number that the operating system gave, for the errors that
    /// come from it.
    pub open spec fn code(self) -> Option<i32> {
        match self {
            HugeError::MemfdCreateFailed(e) => Some(e),
            HugeError::FtruncateFailed(e) => Some(e),
            HugeError::InitialMmapFailed(e) => Some(e),
            HugeError::RemapFailed(e) => Some(e),
            _ => None,
        }
    }

    /// The error in words, `detail` being what the operating system says of
    /// its error number.
    pub open spec fn text(self, detail: Seq<char>) -> Seq<char> {
        match self {
            HugeError::Unreadable => "unreadable"@,
            HugeError::Conflict => "conflicting mappings within all relevant huge pages"@,
            HugeError::Writable => "writable"@,
            HugeError::MemfdCreateFailed(_) => "memfd_create failed: "@ + detail,
            HugeError::FtruncateFailed(_) => "ftruncate failed: "@ + detail,
            HugeError::InitialMmapFailed(_) => "initial mmap failed: "@ + detail,
            HugeError::RemapFailed(_) => "remap failed: "@ + detail,
        }
    }

    /// Tells the error number that the operating system gave, if the error
    /// comes from it.
    pub fn errno(&self) -> (code: Option<i32>)
        ensures
            code == self.code(),
    {
        match self {
            HugeError::MemfdCreateFailed(e) => Some(*e),
            HugeError::FtruncateFailed(e) => Some(*e),
            HugeError::InitialMmapFailed(e) => Some(*e),
            HugeError::RemapFailed(e) => Some(*e),
            _ => None,
        }
    }

    /// Puts the error in words, given what the operating system says of its
    /// error number.
    pub fn describe(&self, detail: &str) -> (text: String)
        ensures
            text@ == self.text(detail@),
    {
        match self {
            HugeError::Unreadable => String::from_str("unreadable"),
            HugeError::Conflict => String::from_str(
                "conflicting mappings within all relevant huge pages",
            ),
            HugeError::Writable => String::from_str("writable"),
            HugeError::MemfdCreateFailed(_) => String::from_str("memfd_create failed: ").concat(
                detail,
            ),
            HugeError::FtruncateFailed(_) => String::from_str("ftruncate failed: ").concat(detail),
            HugeError::InitialMmapFailed(_) => String::from_str("initial mmap failed: ").concat(
                detail,
            ),
            HugeError::RemapFailed(_) => String::from_str("remap failed: ").concat(detail),
        }
    }

    /// Puts the error in words, asking the operating system what its error
    /// number means.
    pub fn to_string(&self) -> (text: String)
        ensures
            exists|detail: Seq<char>| text@ == self.text(detail),
            self.code() is None ==> text@ == self.text(Seq::empty()),
    {
        match self.errno() {
            Some(code) => {
                let detail = os_error_text(code);
                self.describe(detail.as_str())
            },
            None => {
                let text = self.describe("");
                proof {
                    reveal_strlit("");
                    assert(""@ =~= Seq::<char>::empty());
                }
                text
            },
        }
    }
}

impl SegmentView {
    /// What a record says of how replacing the segment ended.
    pub open spec fn remap_text(self) -> Seq<char> {
        match self.remap {
            Some(Ok(range)) => " remap="@ + address_text(range.start) + "-"@ + address_text(
                range.end,
            ),
            Some(Err(e)) => " remap="@ + e.text(self.remap_detail),
            None => Seq::empty(),
        }
    }

    /// What a record says of how locking the segment ended.
    pub open spec fn mlock_text(self) -> Seq<char> {
        match self.mlock {
            Some(Ok(_)) => " mlock=success"@,
            Some(Err(_)) => " mlock="@ + self.mlock_detail,
            None => Seq::empty(),
        }
    }

    /// The line that heads the segments of one object.
    pub open spec fn heading(self) -> Seq<char> {
        "object "@ + lossy_text(self.path) + ":\n"@
    }

    /// The line of a segment: its addresses, what its flags allow, and how
    /// replacing and locking it ended.
    pub open spec fn line(self) -> Seq<char> {
        "* "@ + address_text(self.addrs.start) + "-"@ + address_text(self.addrs.end) + " "@
            + triad(self.flags) + " ->"@ + self.remap_text() + self.mlock_text() + "\n"@
    }
}

/// Whether the segment at `i` is the first of its object in the list, so that
/// the object's heading goes before it.
pub open spec fn starts_object(segments: Seq<SegmentView>, i: int) -> bool {
    i == 0 || segments[i - 1].object_i != segments[i].object_i
}

/// The lines of the first `n` segments, each object's heading before its
/// first segment.
pub open spec fn lines(segments: Seq<SegmentView>, n: int) -> Seq<char>
    decreases n,
{
    if n <= 0 {
        Seq::empty()
    } else {
        lines(segments, n - 1) + (if starts_object(segments, n - 1) {
            segments[n - 1].heading()
        } else {
            Seq::empty()
        }) + segments[n - 1].line()
    }
}

/// The record that sums up the segments.
pub open spec fn report_text(segments: Seq<SegmentView>) -> Seq<char> {
    "primed pages:\n"@ + lines(segments, segments.len() as int)
}

impl Segment {
    /// Writes the segment's line.
    pub fn line(&self) -> (text: String)
        ensures
            text@ == self@.line(),
    {
        let mut text = String::from_str("* ");
        text.append(address(self.addrs.start).as_str());
        text.append("-");
        text.append(address(self.addrs.end).as_str());
        text.append(" ");
        text.append(debug_prot(self.flags).as_str());
        text.append(" ->");
        match &self.remap {
            Some(Ok(range)) => {
                text.append(" remap=");
                text.append(address(range.start).as_str());
                text.append("-");
                text.append(address(range.end).as_str());
            },
            Some(Err(e)) => {
                text.append(" remap=");
                text.append(e.describe(self.remap_detail.as_str()).as_str());
            },
            None => {},
        }
        match &self.mlock {
            Some(Ok(_)) => {
                text.append(" mlock=success");
            },
            Some(Err(_)) => {
                text.append(" mlock=");
                text.append(self.mlock_detail.as_str());
            },
            None => {},
        }
        text.append("\n");
        assert(text@ =~= self@.line());
        text
    }
}

/// Writes the record that sums up the segments: a first line, then for each
/// object its heading and a line for each of its segments.
pub fn report(segments: &Vec<Segment>) -> (text: String)
    ensures
        text@ == report_text(views(segments@)),
{
    let mut text = String::from_str("primed pages:\n");
    let ghost all = views(segments@);
    let mut i: usize = 0;
    while i < segments.len()
        invariant
            i <= segments.len(),
            all == views(segments@),
            text@ == "primed pages:\n"@ + lines(all, i as int),
        decreases segments.len() - i,
    {
        let segment = &segments[i];
        assert(all[i as int] == segment@);
        let ghost before = text@;
        if i == 0 || segments[i - 1].object_i != segment.object_i {
            assert(i > 0 ==> all[i - 1] == segments[i - 1]@);
            text.append("object ");
            text.append(lossy(&segment.path).as_str());
            text.append(":\n");
        }
        text.append(segment.line().as_str());
        i += 1;
        assert(text@ =~= "primed pages:\n"@ + lines(all, i as int));
    }
    text
}

} // verus!
