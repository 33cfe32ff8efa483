use vstd::prelude::*;
use crate::config::{PAGE_SIZE, TRAMPOLINE, TRAP_CONTEXT_BASE, USER_STACK_SIZE};

verus! {

/// Permission bit: readable.
pub const PERM_R: u8 = 0x2;
/// Permission bit: writable.
pub const PERM_W: u8 = 0x4;
/// Permission bit: executable.
pub const PERM_X: u8 = 0x8;
/// Permission bit: reachable from user mode.
pub const PERM_U: u8 = 0x10;

/// Page number of the page that holds virtual address `va`.
pub open spec fn vpn_floor(va: int) -> int {
    va / (PAGE_SIZE as int)
}

/// Number of the first page at or above virtual address `va`.
pub open spec fn vpn_ceil(va: int) -> int {
    if va % (PAGE_SIZE as int) == 0 {
        va / (PAGE_SIZE as int)
    } else {
        va / (PAGE_SIZE as int) + 1
    }
}

pub fn floor_vpn(va: usize) -> (r: usize)
    ensures
        r == vpn_floor(va as int),
{
    va / PAGE_SIZE
}

pub fn ceil_vpn(va: usize) -> (r: usize)
    ensures
        r == vpn_ceil(va as int),
{
    if va % PAGE_SIZE == 0 {
        va / PAGE_SIZE
    } else {
        va / PAGE_SIZE + 1
    }
}

/// A contiguous run of virtual pages `[start_vpn, end_vpn)` mapped with one permission.
#[derive(Clone, Copy, Debug, PartialEq, Eq, Structural)]
pub struct MapArea {
    pub start_vpn: usize,
    pub end_vpn: usize,
    pub perm: u8,
}

/// Two areas clash when they share a page. Two areas with the very same bounds clash
/// too, so that no two areas span the same pages, which for empty areas is the only
/// way they could.
pub open spec fn conflicts(a: MapArea, b: MapArea) -> bool {
    (a.start_vpn < b.end_vpn && b.start_vpn < a.end_vpn) || (a.start_vpn == b.start_vpn && a.end_vpn == b.end_vpn)
}

/// `a` clashes with no area of `s` but, possibly, the one at index `skip`.
pub open spec fn fits_except(s: Seq<MapArea>, a: MapArea, skip: int) -> bool {
    forall|j: int| 0 <= j < s.len() && j != skip ==> !conflicts(#[trigger] s[j], a)
}

/// `a` clashes with no area of `s`.
pub open spec fn fits(s: Seq<MapArea>, a: MapArea) -> bool {
    fits_except(s, a, -1)
}

/// Every area is well-ordered and no two of them clash.
pub open spec fn areas_wf(s: Seq<MapArea>) -> bool {
    &&& forall|i: int| 0 <= i < s.len() ==> (#[trigger] s[i]).start_vpn <= s[i].end_vpn
    &&& forall|i: int, j: int|
        0 <= i < s.len() && 0 <= j < s.len() && i != j ==> !conflicts(#[trigger] s[i], #[trigger] s[j])
}

/// The area that covers the virtual range `[start_va, end_va)`, rounded out to pages.
pub open spec fn area_of(start_va: int, end_va: int, perm: u8) -> MapArea {
    MapArea { start_vpn: vpn_floor(start_va) as usize, end_vpn: vpn_ceil(end_va) as usize, perm }
}

/// The area at `i` starts at page `start` and ends at page `end`.
pub open spec fn spans(s: Seq<MapArea>, i: int, start: int, end: int) -> bool {
    0 <= i < s.len() && s[i].start_vpn == start && s[i].end_vpn == end
}

/// Some area of `s` starts at page `start` and ends at page `end`.
pub open spec fn has_span(s: Seq<MapArea>, start: int, end: int) -> bool {
    exists|i: int| spans(s, i, start, end)
}

/// `after` is `before` with the area that spans pages `[start, end)` set to end at
/// page `new_end`.
pub open spec fn resized(before: Seq<MapArea>, start: int, end: int, new_end: int, after: Seq<MapArea>) -> bool {
    exists|i: int|
        #[trigger] spans(before, i, start, end) && after == before.update(
            i,
            MapArea { end_vpn: new_end as usize, ..before[i] },
        )
}

/// `after` is `before` without the area that spans pages `[start, end)`.
pub open spec fn removed_span(before: Seq<MapArea>, start: int, end: int, after: Seq<MapArea>) -> bool {
    exists|i: int| spans(before, i, start, end) && after == before.remove(i)
}

/// Some area spans pages `[start, end)`, and growing it to end at page `new_end`
/// keeps it clear of every other area.
pub open spec fn can_grow(s: Seq<MapArea>, start: int, end: int, new_end: int) -> bool {
    exists|i: int|
        #[trigger] spans(s, i, start, end) && end <= new_end
            && fits_except(s, MapArea { end_vpn: new_end as usize, ..s[i] }, i)
}

/// Some area spans pages `[start, end)`, `new_end` lies within it, and cutting it
/// back to end there keeps it clear of every other area.
pub open spec fn can_shrink(s: Seq<MapArea>, start: int, end: int, new_end: int) -> bool {
    exists|i: int|
        #[trigger] spans(s, i, start, end) && start <= new_end <= end
            && fits_except(s, MapArea { end_vpn: new_end as usize, ..s[i] }, i)
}

/// In well-formed areas, at most one area spans given pages.
pub proof fn lemma_span_unique(s: Seq<MapArea>, i: int, j: int, start: int, end: int)
    requires
        areas_wf(s),
        spans(s, i, start, end),
        spans(s, j, start, end),
    ensures
        i == j,
{
    if i != j {
        assert(conflicts(s[i], s[j]));
    }
}

/// Adding an area that clashes with none keeps the areas well-formed.
pub proof fn lemma_push_fits(s: Seq<MapArea>, a: MapArea)
    requires
        areas_wf(s),
        fits(s, a),
        a.start_vpn <= a.end_vpn,
    ensures
        areas_wf(s.push(a)),
{
    let t = s.push(a);
    assert forall|i: int, j: int|
        0 <= i < t.len() && 0 <= j < t.len() && i != j implies !conflicts(#[trigger] t[i], #[trigger] t[j]) by {
        if i == s.len() {
            assert(!conflicts(s[j], a));
        } else if j == s.len() {
            assert(!conflicts(s[i], a));
        } else {
            assert(t[i] == s[i] && t[j] == s[j]);
        }
    }
    assert forall|i: int| 0 <= i < t.len() implies (#[trigger] t[i]).start_vpn <= t[i].end_vpn by {
        if i < s.len() {
            assert(t[i] == s[i]);
        }
    }
}

fn area_conflicts(a: &MapArea, b: &MapArea) -> (r: bool)
    ensures
        r == conflicts(*a, *b),
{
    (a.start_vpn < b.end_vpn && b.start_vpn < a.end_vpn) || (a.start_vpn == b.start_vpn && a.end_vpn == b.end_vpn)
}

/// The address space of a task or of the kernel: the identifier of its page table
/// and the areas mapped in it.
pub struct MemorySet {
    pub page_table_root: usize,
    pub areas: Vec<MapArea>,
}

impl MemorySet {
    pub open spec fn wf(&self) -> bool {
        areas_wf(self.areas@)
    }

    /// Whether the areas are well-ordered and no two of them clash.
    pub fn is_wf(&self) -> (r: bool)
        ensures
            r == self.wf(),
    {
        let n = self.areas.len();
        let mut i: usize = 0;
        while i < n
            invariant
                n == self.areas@.len(),
                i <= n,
                forall|a: int| 0 <= a < i ==> (#[trigger] self.areas@[a]).start_vpn <= self.areas@[a].end_vpn,
                forall|a: int, b: int|
                    0 <= a < i && 0 <= b < n && a != b ==> !conflicts(#[trigger] self.areas@[a], #[trigger] self.areas@[b]),
            decreases n - i,
        {
            if self.areas[i].start_vpn > self.areas[i].end_vpn {
                return false;
            }
            let mut j: usize = 0;
            while j < n
                invariant
                    n == self.areas@.len(),
                    i < n,
                    j <= n,
                    forall|b: int| 0 <= b < j && b != i ==> !conflicts(self.areas@[i as int], #[trigger] self.areas@[b]),
                decreases n - j,
            {
                if j != i && area_conflicts(&self.areas[i], &self.areas[j]) {
                    return false;
                }
                j += 1;
            }
            i += 1;
        }
        true
    }

    /// An empty address space whose page table is rooted at page `root`.
    pub fn new_bare(root: usize) -> (r: Self)
        ensures
            r.wf(),
            r.page_table_root == root,
            r.areas@ == Seq::<MapArea>::empty(),
    {
        MemorySet { page_table_root: root, areas: Vec::new() }
    }

    /// The identifier that installs this address space on the hardware.
    pub fn token(&self) -> (r: usize)
        ensures
            r == self.page_table_root,
    {
        self.page_table_root
    }

    /// Index of the area that spans pages `[start, end)`, if any.
    fn find_span(&self, start: usize, end: usize) -> (r: Option<usize>)
        ensures
            match r {
                Some(i) => spans(self.areas@, i as int, start as int, end as int),
                None => !has_span(self.areas@, start as int, end as int),
            },
    {
        let mut i: usize = 0;
        while i < self.areas.len()
            invariant
                i <= self.areas@.len(),
                forall|k: int| 0 <= k < i ==> !#[trigger] spans(self.areas@, k, start as int, end as int),
            decreases self.areas@.len() - i,
        {
            if self.areas[i].start_vpn == start && self.areas[i].end_vpn == end {
                return Some(i);
            }
            i += 1;
        }
        None
    }

    /// Whether `a` clashes with no area but, possibly, the one at index `skip`.
    fn fits_except(&self, a: &MapArea, skip: Option<usize>) -> (r: bool)
        ensures
            r == fits_except(self.areas@, *a, match skip { Some(k) => k as int, None => -1 }),
    {
        let ghost sk: int = match skip { Some(k) => k as int, None => -1 };
        let mut j: usize = 0;
        while j < self.areas.len()
            invariant
                j <= self.areas@.len(),
                sk == match skip { Some(k) => k as int, None => -1 },
                forall|k: int| 0 <= k < j && k != sk ==> !conflicts(#[trigger] self.areas@[k], *a),
            decreases self.areas@.len() - j,
        {
            let skipped = match skip {
                Some(k) => k == j,
                None => false,
            };
            if !skipped && area_conflicts(&self.areas[j], a) {
                return false;
            }
            j += 1;
        }
        true
    }

    /// Maps `[start_va, end_va)`, rounded out to whole pages, with permission `perm`.
    /// Returns 0, or -1 when the range is reversed or clashes with a mapped area;
    /// then nothing changes.
    pub fn insert_framed_area(&mut self, start_va: usize, end_va: usize, perm: u8) -> (r: isize)
        requires
            old(self).wf(),
        ensures
            final(self).wf(),
            final(self).page_table_root == old(self).page_table_root,
            r == 0 || r == -1,
            r == 0 <==> start_va <= end_va && fits(old(self).areas@, area_of(start_va as int, end_va as int, perm)),
            r == 0 ==> final(self).areas@ == old(self).areas@.push(area_of(start_va as int, end_va as int, perm)),
            r == -1 ==> *final(self) == *old(self),
    {
        if start_va > end_va {
            return -1;
        }
        let a = MapArea { start_vpn: floor_vpn(start_va), end_vpn: ceil_vpn(end_va), perm };
        if !self.fits_except(&a, None) {
            return -1;
        }
        self.areas.push(a);
        proof {
            let s = self.areas@;
            assert forall|i: int, j: int|
                0 <= i < s.len() && 0 <= j < s.len() && i != j implies !conflicts(#[trigger] s[i], #[trigger] s[j]) by {
                if i == s.len() - 1 {
                    assert(!conflicts(old(self).areas@[j], a));
                } else if j == s.len() - 1 {
                    assert(!conflicts(old(self).areas@[i], a));
                } else {
                    assert(s[i] == old(self).areas@[i] && s[j] == old(self).areas@[j]);
                }
            }
        }
        0
    }

    /// Unmaps the area that spans exactly the pages of `[start_va, end_va)`.
    /// Returns 0, or -1 when no area has those bounds; then nothing changes.
    pub fn remove_area(&mut self, start_va: usize, end_va: usize) -> (r: isize)
        requires
            old(self).wf(),
        ensures
            final(self).wf(),
            final(self).page_table_root == old(self).page_table_root,
            r == 0 || r == -1,
            r == 0 <==> has_span(old(self).areas@, vpn_floor(start_va as int), vpn_ceil(end_va as int)),
            r == 0 ==> removed_span(old(self).areas@, vpn_floor(start_va as int), vpn_ceil(end_va as int), final(self).areas@),
            r == -1 ==> *final(self) == *old(self),
    {
        let s = floor_vpn(start_va);
        let e = ceil_vpn(end_va);
        let mut i: usize = 0;
        while i < self.areas.len()
            invariant
                i <= self.areas@.len(),
                *self == *old(self),
                self.wf(),
                s == vpn_floor(start_va as int),
                e == vpn_ceil(end_va as int),
                forall|k: int| 0 <= k < i ==> !spans(self.areas@, k, s as int, e as int),
            decreases self.areas@.len() - i,
        {
            if self.areas[i].start_vpn == s && self.areas[i].end_vpn == e {
                let ghost before = self.areas@;
                self.areas.remove(i);
                proof {
                    assert(spans(before, i as int, s as int, e as int));
                    assert(before == old(self).areas@);
                    assert(self.areas@ == before.remove(i as int));
                    assert(has_span(before, s as int, e as int));
                    assert(removed_span(before, s as int, e as int, self.areas@));
                    let t = self.areas@;
                    assert forall|a: int, b: int|
                        0 <= a < t.len() && 0 <= b < t.len() && a != b implies !conflicts(#[trigger] t[a], #[trigger] t[b]) by {
                        let a2 = if a < i { a } else { a + 1 };
                        let b2 = if b < i { b } else { b + 1 };
                        assert(t[a] == before[a2] && t[b] == before[b2]);
                        assert(!conflicts(before[a2], before[b2]));
                    }
                    assert forall|a: int| 0 <= a < t.len() implies (#[trigger] t[a]).start_vpn <= t[a].end_vpn by {
                        let a2 = if a < i { a } else { a + 1 };
                        assert(t[a] == before[a2]);
                        assert(before[a2].start_vpn <= before[a2].end_vpn);
                    }
                }
                return 0;
            }
            i += 1;
        }
        -1
    }

    /// Resizes the area that spans exactly the pages of `[start_va, end_va)` so that it
    /// ends at the first page boundary at or above `new_end_va`, if `fits` holds of it.
    fn resize(&mut self, start_va: usize, end_va: usize, new_end_va: usize, grow: bool) -> (r: bool)
        requires
            old(self).wf(),
        ensures
            final(self).wf(),
            final(self).page_table_root == old(self).page_table_root,
            r <==> if grow {
                can_grow(old(self).areas@, vpn_floor(start_va as int), vpn_ceil(end_va as int), vpn_ceil(new_end_va as int))
            } else {
                can_shrink(old(self).areas@, vpn_floor(start_va as int), vpn_ceil(end_va as int), vpn_ceil(new_end_va as int))
            },
            r ==> resized(old(self).areas@, vpn_floor(start_va as int), vpn_ceil(end_va as int), vpn_ceil(new_end_va as int), final(self).areas@),
            !r ==> *final(self) == *old(self),
    {
        let s = floor_vpn(start_va);
        let e = ceil_vpn(end_va);
        let n = ceil_vpn(new_end_va);
        match self.find_span(s, e) {
            None => false,
            Some(i) => {
                let resized_area = MapArea { end_vpn: n, ..self.areas[i] };
                let in_range = if grow { e <= n } else { s <= n && n <= e };
                if !in_range || !self.fits_except(&resized_area, Some(i)) {
                    proof {
                        if can_grow(self.areas@, s as int, e as int, n as int) {
                            let k = choose|k: int|
                                #[trigger] spans(self.areas@, k, s as int, e as int) && e <= n
                                    && fits_except(self.areas@, MapArea { end_vpn: n, ..self.areas@[k] }, k);
                            lemma_span_unique(self.areas@, i as int, k, s as int, e as int);
                        }
                        if can_shrink(self.areas@, s as int, e as int, n as int) {
                            let k = choose|k: int|
                                #[trigger] spans(self.areas@, k, s as int, e as int) && s <= n <= e
                                    && fits_except(self.areas@, MapArea { end_vpn: n, ..self.areas@[k] }, k);
                            lemma_span_unique(self.areas@, i as int, k, s as int, e as int);
                        }
                    }
                    return false;
                }
                let ghost before = self.areas@;
                self.areas.set(i, resized_area);
                proof {
                    assert(spans(before, i as int, s as int, e as int));
                    let t = self.areas@;
                    assert forall|a: int, b: int|
                        0 <= a < t.len() && 0 <= b < t.len() && a != b implies !conflicts(#[trigger] t[a], #[trigger] t[b]) by {
                        if a == i {
                            assert(!conflicts(before[b], resized_area));
                        } else if b == i {
                            assert(!conflicts(before[a], resized_area));
                        } else {
                            assert(t[a] == before[a] && t[b] == before[b]);
                        }
                    }
                    assert forall|a: int| 0 <= a < t.len() implies (#[trigger] t[a]).start_vpn <= t[a].end_vpn by {
                        if a != i {
                            assert(t[a] == before[a]);
                        }
                    }
                }
                true
            },
        }
    }

    /// Extends the area that spans exactly the pages of `[start_va, end_va)` so that it
    /// ends at the first page boundary at or above `new_end_va`. Fails, changing nothing,
    /// when no area spans those pages, when it would not grow, or when it would clash
    /// with another.
    pub fn append_to(&mut self, start_va: usize, end_va: usize, new_end_va: usize) -> (r: bool)
        requires
            old(self).wf(),
        ensures
            final(self).wf(),
            final(self).page_table_root == old(self).page_table_root,
            r <==> can_grow(old(self).areas@, vpn_floor(start_va as int), vpn_ceil(end_va as int), vpn_ceil(new_end_va as int)),
            r ==> resized(old(self).areas@, vpn_floor(start_va as int), vpn_ceil(end_va as int), vpn_ceil(new_end_va as int), final(self).areas@),
            !r ==> *final(self) == *old(self),
    {
        self.resize(start_va, end_va, new_end_va, true)
    }

    /// Cuts back the area that spans exactly the pages of `[start_va, end_va)` so that it
    /// ends at the first page boundary at or above `new_end_va`. Fails, changing nothing,
    /// when no area spans those pages, the new end lies outside it, or the cut area would
    /// have the same bounds as another.
    pub fn shrink_to(&mut self, start_va: usize, end_va: usize, new_end_va: usize) -> (r: bool)
        requires
            old(self).wf(),
        ensures
            final(self).wf(),
            final(self).page_table_root == old(self).page_table_root,
            r <==> can_shrink(old(self).areas@, vpn_floor(start_va as int), vpn_ceil(end_va as int), vpn_ceil(new_end_va as int)),
            r ==> resized(old(self).areas@, vpn_floor(start_va as int), vpn_ceil(end_va as int), vpn_ceil(new_end_va as int), final(self).areas@),
            !r ==> *final(self) == *old(self),
    {
        self.resize(start_va, end_va, new_end_va, false)
    }
}

/// One loadable segment of a program image: the virtual range it occupies and
/// its read, write and execute bits.
#[derive(Clone, Copy, Debug, PartialEq, Eq, Structural)]
pub struct Segment {
    pub start_va: usize,
    pub end_va: usize,
    pub perm: u8,
}

/// A program ready to be laid out in an address space: its segments and the
/// address at which it starts.
pub struct ProgramImage {
    pub entry: usize,
    pub segments: Vec<Segment>,
}

/// The user area that holds a segment.
pub open spec fn seg_area(g: Segment) -> MapArea {
    area_of(g.start_va as int, g.end_va as int, g.perm | PERM_U)
}

/// The user areas that hold the segments.
pub open spec fn image_areas(segs: Seq<Segment>) -> Seq<MapArea> {
    segs.map_values(|g: Segment| seg_area(g))
}

/// The highest end page of the areas, or 0 for none.
pub open spec fn max_end_vpn(s: Seq<MapArea>) -> int
    decreases s.len(),
{
    if s.len() == 0 {
        0
    } else {
        let m = max_end_vpn(s.drop_last());
        if s.last().end_vpn > m {
            s.last().end_vpn as int
        } else {
            m
        }
    }
}

/// First page of the user stack: one guard page above the highest segment.
pub open spec fn stack_bottom_vpn(segs: Seq<Segment>) -> int {
    max_end_vpn(image_areas(segs)) + 1
}

/// First page above the user stack, where the heap begins.
pub open spec fn stack_top_vpn(segs: Seq<Segment>) -> int {
    stack_bottom_vpn(segs) + USER_STACK_SIZE / PAGE_SIZE
}

/// The segments are well-ordered, do not clash, and leave room for the user stack
/// and an empty heap below the trap context page.
pub open spec fn image_ok(segs: Seq<Segment>) -> bool {
    &&& forall|i: int| 0 <= i < segs.len() ==> (#[trigger] segs[i]).start_va <= segs[i].end_va
    &&& areas_wf(image_areas(segs))
    &&& stack_top_vpn(segs) < TRAP_CONTEXT_BASE / PAGE_SIZE
}

/// The areas of a freshly laid out user space: the segments, the user stack,
/// the heap (empty, right above the stack) and the trap context page.
pub open spec fn user_layout(segs: Seq<Segment>) -> Seq<MapArea> {
    image_areas(segs).push(
        MapArea { start_vpn: stack_bottom_vpn(segs) as usize, end_vpn: stack_top_vpn(segs) as usize, perm: PERM_R | PERM_W | PERM_U },
    ).push(
        MapArea { start_vpn: stack_top_vpn(segs) as usize, end_vpn: stack_top_vpn(segs) as usize, perm: PERM_R | PERM_W | PERM_U },
    ).push(
        MapArea { start_vpn: (TRAP_CONTEXT_BASE / PAGE_SIZE) as usize, end_vpn: (TRAMPOLINE / PAGE_SIZE) as usize, perm: PERM_R | PERM_W },
    )
}

pub proof fn lemma_max_end_bounds(s: Seq<MapArea>)
    ensures
        forall|k: int| 0 <= k < s.len() ==> (#[trigger] s[k]).end_vpn <= max_end_vpn(s),
        max_end_vpn(s) >= 0,
        max_end_vpn(s) <= usize::MAX,
    decreases s.len(),
{
    if s.len() > 0 {
        lemma_max_end_bounds(s.drop_last());
        assert forall|k: int| 0 <= k < s.len() implies (#[trigger] s[k]).end_vpn <= max_end_vpn(s) by {
            if k < s.len() - 1 {
                assert(s[k] == s.drop_last()[k]);
            }
        }
    }
}

impl MemorySet {
    /// Lays out a user address space for `image`, rooted at page `root`: each segment,
    /// a guard page, the user stack, an empty heap, and the trap context page.
    /// Returns the space, the top of the user stack and the entry point, or `None`
    /// when the image is malformed.
    pub fn from_image(image: &ProgramImage, root: usize) -> (r: Option<(MemorySet, usize, usize)>)
        ensures
            r.is_some() <==> image_ok(image.segments@),
            r matches Some((ms, user_sp, entry)) ==> {
                &&& ms.wf()
                &&& ms.page_table_root == root
                &&& ms.areas@ == user_layout(image.segments@)
                &&& user_sp == stack_top_vpn(image.segments@) * PAGE_SIZE
                &&& entry == image.entry
            },
    {
        let ghost segs = image.segments@;
        let mut ms = MemorySet::new_bare(root);
        let mut max_end: usize = 0;
        let mut i: usize = 0;
        while i < image.segments.len()
            invariant
                segs == image.segments@,
                i <= segs.len(),
                ms.wf(),
                ms.page_table_root == root,
                ms.areas@ == image_areas(segs.take(i as int)),
                forall|k: int| 0 <= k < i ==> (#[trigger] segs[k]).start_va <= segs[k].end_va,
                max_end == max_end_vpn(ms.areas@),
            decreases segs.len() - i,
        {
            let g = image.segments[i];
            let ghost before = ms.areas@;
            let rc = ms.insert_framed_area(g.start_va, g.end_va, g.perm | PERM_U);
            proof {
                assert(segs.take(i as int + 1) == segs.take(i as int).push(g));
                assert(image_areas(segs.take(i as int + 1)) == before.push(seg_area(g)));
            }
            if rc != 0 {
                proof {
                    let all = image_areas(segs);
                    if image_ok(segs) {
                        assert(g.start_va <= g.end_va);
                        assert forall|j: int| 0 <= j < before.len() implies !conflicts(#[trigger] before[j], seg_area(g)) by {
                            assert(before[j] == all[j]);
                            assert(all[i as int] == seg_area(g));
                            assert(!conflicts(all[j], all[i as int]));
                        }
                        assert(fits(before, seg_area(g)));
                    }
                }
                return None;
            }
            proof {
                assert(ms.areas@.drop_last() == before);
            }
            if ceil_vpn(g.end_va) > max_end {
                max_end = ceil_vpn(g.end_va);
            }
            i += 1;
        }
        proof {
            assert(segs.take(segs.len() as int) == segs);
            lemma_max_end_bounds(ms.areas@);
        }
        let stack_pages: usize = USER_STACK_SIZE / PAGE_SIZE;
        if max_end >= TRAP_CONTEXT_BASE / PAGE_SIZE - 1 - stack_pages {
            return None;
        }
        let bottom_vpn: usize = max_end + 1;
        let top_vpn: usize = bottom_vpn + stack_pages;
        let rc1 = ms.insert_framed_area(bottom_vpn * PAGE_SIZE, top_vpn * PAGE_SIZE, PERM_R | PERM_W | PERM_U);
        let rc2 = ms.insert_framed_area(top_vpn * PAGE_SIZE, top_vpn * PAGE_SIZE, PERM_R | PERM_W | PERM_U);
        let rc3 = ms.insert_framed_area(TRAP_CONTEXT_BASE, TRAMPOLINE, PERM_R | PERM_W);
        if rc1 != 0 || rc2 != 0 || rc3 != 0 {
            return None;
        }
        Some((ms, top_vpn * PAGE_SIZE, image.entry))
    }
}

} // verus!
