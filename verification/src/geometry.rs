//! Where a segment lies among base pages and huge pages, and which range can
//! be replaced depending on which of its neighbours could be reserved.

use vstd::prelude::*;
use vstd::arithmetic::power2::is_pow2;
use crate::page::{
    ceil_to, floor_to, is_aligned, is_mask, lemma_aligned_gap, lemma_aligned_to_divisor,
    lemma_ceil_is_least, lemma_ceil_to, lemma_floor_is_greatest, lemma_floor_to,
    lemma_page_sizes_nest, round_down, round_up,
};

verus! {

/// A half-open range of addresses, `start` up to but not including `end`.
#[derive(Clone, Copy, Debug, PartialEq, Eq)]
pub struct Span {
    pub start: usize,
    pub end: usize,
}

impl Span {
    /// Whether the range holds no address.
    pub open spec fn is_empty(self) -> bool {
        self.start >= self.end
    }

    /// Whether every address of `self` is an address of `other`.
    pub open spec fn within(self, other: Span) -> bool {
        other.start <= self.start && self.end <= other.end
    }
}

/// The ranges around one segment that decide what can be replaced.
#[derive(Clone, Copy, Debug, PartialEq, Eq)]
pub struct Geometry {
    /// The base pages that the segment touches.
    pub page: Span,
    /// The huge pages that the segment touches.
    pub outer: Span,
    /// The huge pages that lie wholly within `page`; inverted where there are
    /// none.
    pub inner: Span,
}

/// The range to replace and the part of it that holds the segment's bytes.
#[derive(Clone, Copy, Debug, PartialEq, Eq)]
pub struct Plan {
    /// The range that the new mapping takes.
    pub map: Span,
    /// The bytes to copy into it: what `map` and the segment's base pages
    /// have in common.
    pub copy: Span,
}

impl Geometry {
    /// Whether `self` is the geometry of the segment from `start` to `end`
    /// for base pages of `base` bytes and huge pages of `huge` bytes.
    pub open spec fn describes(self, start: int, end: int, base: int, huge: int) -> bool {
        &&& self.page.start == floor_to(start, base)
        &&& self.page.end == ceil_to(end, base)
        &&& self.outer.start == floor_to(start, huge)
        &&& self.outer.end == ceil_to(end, huge)
        &&& self.inner.start == ceil_to(floor_to(start, base), huge)
        &&& self.inner.end == floor_to(ceil_to(end, base), huge)
    }

    /// The geometry of the segment from `start` to `end` for pages with these
    /// masks, where all of it lies within the address space.
    pub open spec fn at(start: usize, end: usize, base_page_mask: usize, huge_page_mask: usize)
        -> Geometry {
        let base = base_page_mask + 1;
        let huge = huge_page_mask + 1;
        Geometry {
            page: Span {
                start: floor_to(start as int, base) as usize,
                end: ceil_to(end as int, base) as usize,
            },
            outer: Span {
                start: floor_to(start as int, huge) as usize,
                end: ceil_to(end as int, huge) as usize,
            },
            inner: Span {
                start: ceil_to(floor_to(start as int, base), huge) as usize,
                end: floor_to(ceil_to(end as int, base), huge) as usize,
            },
        }
    }

    /// What holds of every geometry that [`Geometry::of`] computes, whatever
    /// the page sizes: enough to plan without leaving the address space.
    pub open spec fn sound(self) -> bool {
        &&& self.page.start <= self.page.end
        &&& self.page.start <= self.inner.start
        &&& self.inner.end <= self.page.end
        &&& self.inner.start < self.outer.end ==> self.inner.start <= self.page.end
        &&& self.outer.start < self.inner.end ==> self.page.start <= self.inner.end
    }

    /// Whether there are addresses before the segment's pages in its first
    /// huge page.
    pub open spec fn has_start_padding(self) -> bool {
        self.outer.start < self.page.start
    }

    /// Whether there are addresses after the segment's pages in its last huge
    /// page.
    pub open spec fn has_end_padding(self) -> bool {
        self.outer.end > self.page.end
    }

    /// The addresses before the segment's pages in its first huge page.
    pub open spec fn start_padding(self) -> Span {
        Span { start: self.outer.start, end: self.page.start }
    }

    /// The addresses after the segment's pages in its last huge page.
    pub open spec fn end_padding(self) -> Span {
        Span { start: self.page.end, end: self.outer.end }
    }

    /// Where the replaced range starts: at the first huge page if its padding
    /// was reserved, else at the first huge page boundary within the pages.
    pub open spec fn planned_start(self, reserved: bool) -> usize {
        if self.has_start_padding() && reserved {
            self.outer.start
        } else {
            self.inner.start
        }
    }

    /// Where the replaced range ends: at the end of the last huge page if its
    /// padding was reserved, else at the last huge page boundary within the
    /// pages.
    pub open spec fn planned_end(self, reserved: bool) -> usize {
        if self.has_end_padding() && reserved {
            self.outer.end
        } else {
            self.inner.end
        }
    }

    /// The range to replace, or `None` where nothing is left of it.
    pub open spec fn plan(self, start_reserved: bool, end_reserved: bool) -> Option<Plan> {
        let start = self.planned_start(start_reserved);
        let end = self.planned_end(end_reserved);
        if start >= end {
            None
        } else {
            Some(
                Plan {
                    map: Span { start, end },
                    copy: Span {
                        start: if start >= self.page.start {
                            start
                        } else {
                            self.page.start
                        },
                        end: if end <= self.page.end {
                            end
                        } else {
                            self.page.end
                        },
                    },
                },
            )
        }
    }

    /// The geometry of a segment that ends within the address space, also
    /// when rounded up, is made of addresses, and it is sound.
    pub proof fn lemma_at(start: usize, end: usize, base_page_mask: usize, huge_page_mask: usize)
        requires
            start <= end,
            is_mask(base_page_mask),
            is_mask(huge_page_mask),
            ceil_to(end as int, base_page_mask + 1) <= usize::MAX,
            ceil_to(end as int, huge_page_mask + 1) <= usize::MAX,
        ensures
            Geometry::at(start, end, base_page_mask, huge_page_mask).describes(
                start as int,
                end as int,
                base_page_mask + 1,
                huge_page_mask + 1,
            ),
            Geometry::at(start, end, base_page_mask, huge_page_mask).sound(),
    {
        let base = base_page_mask + 1;
        let huge = huge_page_mask + 1;
        assert(base > 0 && huge > 0) by {
            reveal(is_pow2);
        }
        lemma_floor_to(start as int, base);
        lemma_ceil_to(end as int, base);
        lemma_floor_to(start as int, huge);
        lemma_ceil_to(end as int, huge);
        lemma_ceil_to(floor_to(start as int, base), huge);
        lemma_floor_to(ceil_to(end as int, base), huge);
        // No bound lies below zero, which is a multiple of every size.
        lemma_floor_is_greatest(start as int, base, 0);
        lemma_floor_is_greatest(start as int, huge, 0);
        lemma_floor_is_greatest(ceil_to(end as int, base), huge, 0);
        // The first boundary at or after the pages' start is no later than the
        // first boundary at or after the segment's end.
        lemma_ceil_is_least(floor_to(start as int, base), huge, ceil_to(end as int, huge));
        if ceil_to(floor_to(start as int, base), huge) > ceil_to(end as int, base) {
            lemma_ceil_is_least(end as int, huge, ceil_to(floor_to(start as int, base), huge));
        }
        if floor_to(ceil_to(end as int, base), huge) < floor_to(start as int, base) {
            lemma_floor_is_greatest(start as int, huge, floor_to(ceil_to(end as int, base), huge));
        }
    }

    /// Computes the geometry of the segment from `start` to `end`.
    pub fn of(start: usize, end: usize, base_page_mask: usize, huge_page_mask: usize) -> (g:
        Geometry)
        requires
            start <= end,
            is_mask(base_page_mask),
            is_mask(huge_page_mask),
            ceil_to(end as int, base_page_mask + 1) <= usize::MAX,
            ceil_to(end as int, huge_page_mask + 1) <= usize::MAX,
        ensures
            g == Geometry::at(start, end, base_page_mask, huge_page_mask),
            g.describes(start as int, end as int, base_page_mask + 1, huge_page_mask + 1),
            g.sound(),
    {
        proof {
            Geometry::lemma_at(start, end, base_page_mask, huge_page_mask);
        }
        let page_start = round_down(start, base_page_mask);
        let page_end = round_up(end, base_page_mask);
        Geometry {
            page: Span { start: page_start, end: page_end },
            outer: Span {
                start: round_down(start, huge_page_mask),
                end: round_up(end, huge_page_mask),
            },
            inner: Span {
                start: round_up(page_start, huge_page_mask),
                end: round_down(page_end, huge_page_mask),
            },
        }
    }

    /// Chooses the range to replace, given which paddings were reserved.
    pub fn select(&self, start_reserved: bool, end_reserved: bool) -> (plan: Option<Plan>)
        ensures
            plan == self.plan(start_reserved, end_reserved),
    {
        let start = if self.outer.start < self.page.start && start_reserved {
            self.outer.start
        } else {
            self.inner.start
        };
        let end = if self.outer.end > self.page.end && end_reserved {
            self.outer.end
        } else {
            self.inner.end
        };
        if start >= end {
            None
        } else {
            Some(
                Plan {
                    map: Span { start, end },
                    copy: Span {
                        start: if start >= self.page.start {
                            start
                        } else {
                            self.page.start
                        },
                        end: if end <= self.page.end {
                            end
                        } else {
                            self.page.end
                        },
                    },
                },
            )
        }
    }
}

/// What the page sizes of a host have in common: both are powers of two, and
/// a huge page is made of whole base pages.
pub open spec fn nested_page_sizes(base: int, huge: int) -> bool {
    is_pow2(base) && is_pow2(huge) && base <= huge
}

/// With page sizes that nest, the base pages of a segment lie within its huge
/// pages, the huge pages within them lie within the base pages, and every
/// bound is a multiple of the base page size.
pub proof fn lemma_geometry_nests(g: Geometry, start: int, end: int, base: int, huge: int)
    requires
        g.describes(start, end, base, huge),
        nested_page_sizes(base, huge),
        0 <= start <= end,
    ensures
        g.outer.start <= g.page.start <= start,
        end <= g.page.end <= g.outer.end,
        g.page.start <= g.inner.start,
        g.inner.end <= g.page.end,
        g.page.start - g.outer.start < huge,
        g.outer.end - g.page.end < huge,
        is_aligned(g.outer.start as int, huge),
        is_aligned(g.outer.end as int, huge),
        is_aligned(g.inner.start as int, huge),
        is_aligned(g.inner.end as int, huge),
        is_aligned(g.page.start as int, base),
        is_aligned(g.page.end as int, base),
        g.has_start_padding() || g.inner.start == g.outer.start,
        g.has_end_padding() || g.inner.end == g.outer.end,
{
    assert(base > 0 && huge > 0) by {
        reveal(is_pow2);
    }
    lemma_page_sizes_nest(base, huge);
    lemma_floor_to(start, base);
    lemma_ceil_to(end, base);
    lemma_floor_to(start, huge);
    lemma_ceil_to(end, huge);
    lemma_ceil_to(floor_to(start, base), huge);
    lemma_floor_to(ceil_to(end, base), huge);
    // A huge page boundary is a base page boundary.
    lemma_aligned_to_divisor(floor_to(start, huge), base, huge);
    lemma_aligned_to_divisor(ceil_to(end, huge), base, huge);
    lemma_floor_is_greatest(start, base, floor_to(start, huge));
    lemma_ceil_is_least(end, base, ceil_to(end, huge));
    if !g.has_start_padding() {
        assert(floor_to(start, base) % huge == 0);
    }
    if !g.has_end_padding() {
        assert(ceil_to(end, base) % huge == 0);
    }
}

/// Whatever was reserved, a plan lies within the huge pages of the segment,
/// starts and ends at huge page boundaries, and holds at least one byte of
/// the segment's base pages, provided the segment touches a base page at all.
pub proof fn lemma_plan_within_closure(
    g: Geometry,
    start: int,
    end: int,
    base: int,
    huge: int,
    start_reserved: bool,
    end_reserved: bool,
)
    requires
        g.describes(start, end, base, huge),
        nested_page_sizes(base, huge),
        0 <= start <= end,
        g.page.start < g.page.end,
    ensures
        g.plan(start_reserved, end_reserved) matches Some(plan) ==> {
            &&& plan.map.within(g.outer)
            &&& is_aligned(plan.map.start as int, huge)
            &&& is_aligned(plan.map.end as int, huge)
            &&& !plan.copy.is_empty()
            &&& plan.copy.within(g.page)
            &&& plan.copy.within(plan.map)
        },
{
    lemma_geometry_nests(g, start, end, base, huge);
    if g.plan(start_reserved, end_reserved) is Some {
        let plan = g.plan(start_reserved, end_reserved)->0;
        lemma_aligned_gap(g.outer.start as int, g.inner.end as int, huge);
        lemma_aligned_gap(g.inner.start as int, g.outer.end as int, huge);
        lemma_aligned_gap(g.outer.start as int, g.inner.start as int, huge);
        lemma_aligned_gap(g.inner.end as int, g.outer.end as int, huge);
    }
}

/// Where both paddings were reserved, the plan is the huge pages of the
/// segment exactly.
pub proof fn lemma_plan_with_both_reserved(
    g: Geometry,
    start: int,
    end: int,
    base: int,
    huge: int,
)
    requires
        g.describes(start, end, base, huge),
        nested_page_sizes(base, huge),
        0 <= start <= end,
    ensures
        g.plan(true, true) == if g.outer.is_empty() {
            None
        } else {
            Some(Plan { map: g.outer, copy: g.page })
        },
{
    lemma_geometry_nests(g, start, end, base, huge);
}

/// Where neither padding was reserved, the plan is the huge pages that lie
/// within the segment's base pages, if there are any.
pub proof fn lemma_plan_with_none_reserved(
    g: Geometry,
    start: int,
    end: int,
    base: int,
    huge: int,
)
    requires
        g.describes(start, end, base, huge),
        nested_page_sizes(base, huge),
        0 <= start <= end,
    ensures
        g.plan(false, false) == if g.inner.is_empty() {
            None
        } else {
            Some(Plan { map: g.inner, copy: g.inner })
        },
        forall|s: Span|
            s.within(g.page) && is_aligned(s.start as int, huge) && is_aligned(s.end as int, huge)
                && !s.is_empty() ==> #[trigger] s.within(g.inner),
{
    lemma_geometry_nests(g, start, end, base, huge);
    assert(huge > 0) by {
        reveal(is_pow2);
    }
    assert forall|s: Span|
        s.within(g.page) && is_aligned(s.start as int, huge) && is_aligned(s.end as int, huge)
            && !s.is_empty() implies #[trigger] s.within(g.inner) by {
        lemma_ceil_is_least(g.page.start as int, huge, s.start as int);
        lemma_floor_is_greatest(g.page.end as int, huge, s.end as int);
    }
}

} // verus!
