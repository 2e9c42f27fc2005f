use vstd::prelude::*;

verus! {

/// Size of a page.
pub const PAGE: usize = 4096;

/// Start of the user stack area.
pub const STACK_START: usize = 0x7000_0000;

/// Length of the user stack area.
pub const STACK_LEN: usize = 0x1000_0000;

/// What a memory area holds.
#[derive(Clone, Copy, Debug, PartialEq, Eq, Structural)]
pub enum MemType {
    CodeSection,
    Stack,
    Mmap,
    Shared,
}

/// Page permissions of a mapping.
#[derive(Clone, Copy, Debug, PartialEq, Eq, Structural)]
pub enum MappingFlags {
    /// User readable, writable and executable.
    URWX,
    /// User readable and executable: writes fault.
    URX,
}

/// A virtual page and the physical frame behind it.
#[derive(Clone, Copy, Debug, PartialEq, Eq, Structural)]
pub struct MapTrack {
    pub vaddr: usize,
    pub frame: usize,
    pub rwx: u8,
}

/// A page-table update for the hardware layer to carry out.
#[derive(Clone, Copy, Debug, PartialEq, Eq, Structural)]
pub struct MapAction {
    pub vaddr: usize,
    pub paddr: usize,
    pub flags: MappingFlags,
}

/// A contiguous region of a task's address space.
pub struct MemArea {
    pub mtype: MemType,
    pub mtrackers: Vec<MapTrack>,
    /// Node backing the area, if it maps a file.
    pub file: Option<usize>,
    pub offset: usize,
    pub start: usize,
    pub len: usize,
}

/// The abstract value of a `MemArea`.
pub struct AreaView {
    pub mtype: MemType,
    pub tracks: Seq<MapTrack>,
    pub file: Option<usize>,
    pub offset: usize,
    pub start: usize,
    pub len: usize,
}

impl View for MemArea {
    type V = AreaView;

    open spec fn view(&self) -> AreaView {
        AreaView {
            mtype: self.mtype,
            tracks: self.mtrackers@,
            file: self.file,
            offset: self.offset,
            start: self.start,
            len: self.len,
        }
    }
}

impl MemArea {
    /// A copy of the area that tracks the same frames.
    pub fn duplicate(&self) -> (r: MemArea)
        ensures
            r@ == self@,
    {
        let mut t: Vec<MapTrack> = Vec::new();
        let mut i: usize = 0;
        while i < self.mtrackers.len()
            invariant
                i <= self.mtrackers@.len(),
                t@ == self.mtrackers@.take(i as int),
            decreases self.mtrackers@.len() - i,
        {
            t.push(self.mtrackers[i]);
            i = i + 1;
            assert(t@ =~= self.mtrackers@.take(i as int));
        }
        assert(self.mtrackers@.take(i as int) =~= self.mtrackers@);
        MemArea {
            mtype: self.mtype,
            mtrackers: t,
            file: self.file,
            offset: self.offset,
            start: self.start,
            len: self.len,
        }
    }
}

/// The areas of one address space, in order of creation.
pub struct MemSet {
    pub areas: Vec<MemArea>,
}

impl View for MemSet {
    type V = Seq<AreaView>;

    open spec fn view(&self) -> Seq<AreaView> {
        self.areas@.map_values(|a: MemArea| a@)
    }
}

/// The tracks for `frames` placed from `vaddr` on, one page each; with
/// `vaddr == 0` the frames are not placed.
pub open spec fn spec_tracks(vaddr: usize, frames: Seq<usize>) -> Seq<MapTrack> {
    Seq::new(
        frames.len(),
        |i: int|
            MapTrack {
                vaddr: if vaddr == 0 {
                    0
                } else {
                    (vaddr + i * PAGE) as usize
                },
                frame: frames[i],
                rwx: 0,
            },
    )
}

/// The mappings for new tracks: each placed page mapped to its frame, writable.
pub open spec fn spec_map_new(vaddr: usize, tracks: Seq<MapTrack>) -> Seq<MapAction> {
    if vaddr == 0 {
        Seq::empty()
    } else {
        tracks.map_values(|t: MapTrack| MapAction { vaddr: t.vaddr, paddr: t.frame, flags: MappingFlags::URWX })
    }
}

/// Whether `i` is the first stack area of `ms`.
pub open spec fn first_stack(ms: Seq<AreaView>, i: int) -> bool {
    0 <= i < ms.len() && ms[i].mtype == MemType::Stack && forall|k: int|
        0 <= k < i ==> ms[k].mtype != MemType::Stack
}

/// `ms` after new tracks of type `mtype` are recorded. Stack tracks join the
/// first stack area, or open the stack area at its fixed place; any other
/// tracks form an area of their own.
pub open spec fn is_inserted(
    after: Seq<AreaView>,
    ms: Seq<AreaView>,
    mtype: MemType,
    tracks: Seq<MapTrack>,
    file: Option<usize>,
    offset: usize,
    start: usize,
    len: usize,
) -> bool {
    if mtype != MemType::Stack {
        after == ms.push(AreaView { mtype, tracks, file, offset, start, len })
    } else if exists|i: int| 0 <= i < ms.len() && #[trigger] ms[i].mtype == MemType::Stack {
        exists|i: int|
            #[trigger] first_stack(ms, i) && after == ms.update(
                i,
                AreaView { tracks: ms[i].tracks + tracks, ..ms[i] },
            )
    } else {
        after == ms.push(
            AreaView {
                mtype,
                tracks,
                file: None,
                offset: 0,
                start: STACK_START,
                len: STACK_LEN,
            },
        )
    }
}

/// The mappings that a copy-on-write fork asks for in one address space:
/// every tracked page, read-only.
pub open spec fn spec_cow_maps(ms: Seq<AreaView>) -> Seq<MapAction>
    decreases ms.len(),
{
    if ms.len() == 0 {
        Seq::empty()
    } else {
        spec_cow_maps(ms.drop_last()) + ms.last().tracks.map_values(
            |t: MapTrack| MapAction { vaddr: t.vaddr, paddr: t.frame, flags: MappingFlags::URX },
        )
    }
}

/// The highest end of any area but the stack, 0 for none.
pub open spec fn max_area_end(ms: Seq<AreaView>) -> int
    decreases ms.len(),
{
    if ms.len() == 0 {
        0
    } else {
        let rest = max_area_end(ms.drop_last());
        let e = ms.last().start + ms.last().len;
        if ms.last().mtype != MemType::Stack && e > rest {
            e
        } else {
            rest
        }
    }
}

/// Whether some area tracks page `vaddr`.
pub open spec fn tracks_page(ms: Seq<AreaView>, vaddr: usize) -> bool {
    exists|a: int, t: int|
        0 <= a < ms.len() && 0 <= t < ms[a].tracks.len() && #[trigger] ms[a].tracks[t].vaddr == vaddr
}

/// No area reaches past the end of the address space.
pub open spec fn areas_fit(ms: Seq<AreaView>) -> bool {
    forall|i: int| 0 <= i < ms.len() ==> #[trigger] ms[i].start + ms[i].len <= usize::MAX
}

proof fn lemma_joined_stack(
    after: Seq<AreaView>,
    ms: Seq<AreaView>,
    i: int,
    tracks: Seq<MapTrack>,
    file: Option<usize>,
    offset: usize,
    start: usize,
    len: usize,
)
    requires
        first_stack(ms, i),
        after == ms.update(i, AreaView { tracks: ms[i].tracks + tracks, ..ms[i] }),
    ensures
        is_inserted(after, ms, MemType::Stack, tracks, file, offset, start, len),
{
    assert(ms[i].mtype == MemType::Stack);
}

impl MemSet {
    pub fn new() -> (r: MemSet)
        ensures
            r@ == Seq::<AreaView>::empty(),
    {
        let r = MemSet { areas: Vec::new() };
        assert(r@ =~= Seq::<AreaView>::empty());
        r
    }

    pub fn clear(&mut self)
        ensures
            final(self)@ == Seq::<AreaView>::empty(),
    {
        self.areas.clear();
        assert(self@ =~= Seq::<AreaView>::empty());
    }

    /// A copy of the set that tracks the same frames.
    pub fn duplicate(&self) -> (r: MemSet)
        ensures
            r@ == self@,
    {
        let mut a: Vec<MemArea> = Vec::new();
        let mut i: usize = 0;
        while i < self.areas.len()
            invariant
                i <= self.areas@.len(),
                a@.map_values(|x: MemArea| x@) == self@.take(i as int),
            decreases self.areas@.len() - i,
        {
            let d = self.areas[i].duplicate();
            let ghost a0 = a@;
            a.push(d);
            assert(a@.map_values(|x: MemArea| x@) =~= a0.map_values(|x: MemArea| x@).push(d@));
            i = i + 1;
            assert(a@.map_values(|x: MemArea| x@) =~= self@.take(i as int));
        }
        let r = MemSet { areas: a };
        assert(r@ =~= self@);
        r
    }

    /// Records `tracks`, as `is_inserted` says.
    pub fn insert(
        &mut self,
        mtype: MemType,
        tracks: Vec<MapTrack>,
        file: Option<usize>,
        offset: usize,
        start: usize,
        len: usize,
    )
        ensures
            is_inserted(final(self)@, old(self)@, mtype, tracks@, file, offset, start, len),
    {
        let ghost tv = tracks@;
        if mtype == MemType::Stack {
            let mut i: usize = 0;
            while i < self.areas.len()
                invariant
                    self@ == old(self)@,
                    tracks@ == tv,
                    mtype == MemType::Stack,
                    i <= self@.len(),
                    forall|k: int| 0 <= k < i ==> self@[k].mtype != MemType::Stack,
                decreases self@.len() - i,
            {
                if self.areas[i].mtype == MemType::Stack {
                    let mut tmp = MemArea {
                        mtype,
                        mtrackers: Vec::new(),
                        file: None,
                        offset: 0,
                        start: 0,
                        len: 0,
                    };
                    self.areas.set_and_swap(i, &mut tmp);
                    let mut t = tracks;
                    tmp.mtrackers.append(&mut t);
                    self.areas.set(i, tmp);
                    assert(old(self)@[i as int].mtype == MemType::Stack);
                    assert(first_stack(old(self)@, i as int));
                    assert(self@ =~= old(self)@.update(
                        i as int,
                        AreaView { tracks: old(self)@[i as int].tracks + tv, ..old(self)@[i as int] },
                    ));
                    proof {
                        lemma_joined_stack(self@, old(self)@, i as int, tv, file, offset, start, len);
                    }
                    return ;
                }
                i = i + 1;
            }
            self.areas.push(
                MemArea {
                    mtype,
                    mtrackers: tracks,
                    file: None,
                    offset: 0,
                    start: STACK_START,
                    len: STACK_LEN,
                },
            );
        } else {
            self.areas.push(MemArea { mtype, mtrackers: tracks, file, offset, start, len });
        }
        assert(self@ =~= old(self)@.push(self@.last()));
    }

    /// After a write fault on a copy-on-write page: page `vaddr` now has frame
    /// `frame` of its own (a copy of the shared one), mapped writable. Returns
    /// that mapping, or `None` when no area tracks the page.
    pub fn remap_page(&mut self, vaddr: usize, frame: usize) -> (r: Option<MapAction>)
        ensures
            r is None ==> final(self)@ == old(self)@ && !tracks_page(old(self)@, vaddr),
            r is Some ==> r == Some(MapAction { vaddr, paddr: frame, flags: MappingFlags::URWX })
                && exists|a: int, t: int|
                0 <= a < old(self)@.len() && 0 <= t < old(self)@[a].tracks.len()
                    && #[trigger] old(self)@[a].tracks[t].vaddr == vaddr && final(self)@ == old(
                    self,
                )@.update(
                    a,
                    AreaView {
                        tracks: old(self)@[a].tracks.update(
                            t,
                            MapTrack { frame, ..old(self)@[a].tracks[t] },
                        ),
                        ..old(self)@[a]
                    },
                ),
    {
        let mut a: usize = 0;
        while a < self.areas.len()
            invariant
                self@ == old(self)@,
                a <= self@.len(),
                forall|i: int, t: int|
                    0 <= i < a && 0 <= t < self@[i].tracks.len() ==> #[trigger] self@[i].tracks[t].vaddr
                        != vaddr,
            decreases self@.len() - a,
        {
            let n = self.areas[a].mtrackers.len();
            let mut t: usize = 0;
            while t < n
                invariant
                    self@ == old(self)@,
                    a < self@.len(),
                    n == self@[a as int].tracks.len(),
                    t <= n,
                    forall|k: int| 0 <= k < t ==> #[trigger] self@[a as int].tracks[k].vaddr != vaddr,
                decreases n - t,
            {
                if self.areas[a].mtrackers[t].vaddr == vaddr {
                    let mut tmp = MemArea {
                        mtype: MemType::Mmap,
                        mtrackers: Vec::new(),
                        file: None,
                        offset: 0,
                        start: 0,
                        len: 0,
                    };
                    self.areas.set_and_swap(a, &mut tmp);
                    let old_track = tmp.mtrackers[t];
                    tmp.mtrackers.set(t, MapTrack { frame, ..old_track });
                    self.areas.set(a, tmp);
                    assert(old(self)@[a as int].tracks[t as int].vaddr == vaddr);
                    assert(self@ =~= old(self)@.update(
                        a as int,
                        AreaView {
                            tracks: old(self)@[a as int].tracks.update(
                                t as int,
                                MapTrack { frame, ..old(self)@[a as int].tracks[t as int] },
                            ),
                            ..old(self)@[a as int]
                        },
                    ));
                    return Some(MapAction { vaddr, paddr: frame, flags: MappingFlags::URWX });
                }
                t = t + 1;
            }
            a = a + 1;
        }
        None
    }

    /// The mappings that a copy-on-write fork asks for.
    pub fn cow_maps(&self) -> (r: Vec<MapAction>)
        ensures
            r@ == spec_cow_maps(self@),
    {
        let mut r: Vec<MapAction> = Vec::new();
        let mut i: usize = 0;
        while i < self.areas.len()
            invariant
                i <= self@.len(),
                r@ == spec_cow_maps(self@.take(i as int)),
            decreases self@.len() - i,
        {
            let ghost r0 = r@;
            let tr = &self.areas[i].mtrackers;
            let mut j: usize = 0;
            while j < tr.len()
                invariant
                    j <= tr@.len(),
                    tr@ == self@[i as int].tracks,
                    r@ == r0 + tr@.take(j as int).map_values(
                        |t: MapTrack| MapAction { vaddr: t.vaddr, paddr: t.frame, flags: MappingFlags::URX },
                    ),
                decreases tr@.len() - j,
            {
                let t = tr[j];
                r.push(MapAction { vaddr: t.vaddr, paddr: t.frame, flags: MappingFlags::URX });
                j = j + 1;
                assert(r@ =~= r0 + tr@.take(j as int).map_values(
                    |t: MapTrack| MapAction { vaddr: t.vaddr, paddr: t.frame, flags: MappingFlags::URX },
                ));
            }
            assert(self@.take(i + 1).drop_last() =~= self@.take(i as int));
            assert(tr@.take(j as int) =~= tr@);
            i = i + 1;
        }
        assert(self@.take(i as int) =~= self@);
        r
    }

    /// The end of the highest area other than the stack.
    pub fn last_area_end(&self) -> (r: usize)
        requires
            areas_fit(self@),
        ensures
            r == max_area_end(self@),
    {
        let mut m: usize = 0;
        let mut i: usize = 0;
        while i < self.areas.len()
            invariant
                i <= self@.len(),
                areas_fit(self@),
                m == max_area_end(self@.take(i as int)),
            decreases self@.len() - i,
        {
            assert(self@.take(i + 1).drop_last() =~= self@.take(i as int));
            let a = &self.areas[i];
            assert(self@[i as int].start + self@[i as int].len <= usize::MAX);
            let e = a.start + a.len;
            if a.mtype != MemType::Stack && e > m {
                m = e;
            }
            i = i + 1;
        }
        assert(self@.take(i as int) =~= self@);
        m
    }
}

/// Tracks for `frames` from `vaddr` on, and the mappings that place them.
pub fn make_tracks(vaddr: usize, frames: &Vec<usize>) -> (r: (Vec<MapTrack>, Vec<MapAction>))
    requires
        vaddr + frames@.len() * PAGE <= usize::MAX,
    ensures
        r.0@ == spec_tracks(vaddr, frames@),
        r.1@ == spec_map_new(vaddr, r.0@),
{
    let mut t: Vec<MapTrack> = Vec::new();
    let mut m: Vec<MapAction> = Vec::new();
    let mut i: usize = 0;
    while i < frames.len()
        invariant
            vaddr + frames@.len() * PAGE <= usize::MAX,
            i <= frames@.len(),
            t@ == spec_tracks(vaddr, frames@).take(i as int),
            m@ == spec_map_new(vaddr, t@),
        decreases frames@.len() - i,
    {
        proof {
            assert(i * PAGE <= frames@.len() * PAGE) by (nonlinear_arith)
                requires
                    i <= frames@.len(),
            ;
        }
        let va = if vaddr == 0 {
            0
        } else {
            vaddr + i * PAGE
        };
        let tr = MapTrack { vaddr: va, frame: frames[i], rwx: 0 };
        t.push(tr);
        if vaddr != 0 {
            m.push(MapAction { vaddr: va, paddr: frames[i], flags: MappingFlags::URWX });
        }
        i = i + 1;
        assert(t@ =~= spec_tracks(vaddr, frames@).take(i as int));
        assert(m@ =~= spec_map_new(vaddr, t@));
    }
    assert(t@ =~= spec_tracks(vaddr, frames@));
    (t, m)
}


/// Once a write fault gives the child's copy of a shared page a frame of its
/// own, that page differs between parent and child while every other page
/// stays on the frame they share.
pub proof fn law_cow_write_separates(ms: Seq<AreaView>, a: int, t: int, frame: usize)
    requires
        0 <= a < ms.len(),
        0 <= t < ms[a].tracks.len(),
        frame != ms[a].tracks[t].frame,
    ensures
        ({
            let child = ms.update(
                a,
                AreaView {
                    tracks: ms[a].tracks.update(t, MapTrack { frame, ..ms[a].tracks[t] }),
                    ..ms[a]
                },
            );
            &&& child[a].tracks[t].vaddr == ms[a].tracks[t].vaddr
            &&& child[a].tracks[t].frame != ms[a].tracks[t].frame
            &&& forall|b: int, u: int|
                0 <= b < ms.len() && 0 <= u < ms[b].tracks.len() && (b, u) != (a, t)
                    ==> #[trigger] child[b].tracks[u] == ms[b].tracks[u]
        }),
{
}

} // verus!
