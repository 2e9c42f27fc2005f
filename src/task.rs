use vstd::prelude::*;
use vstd::string::StringSliceAdditionalSpecFns;
use crate::errno::Errno;
use crate::futex::{FutexTable, waiters, min};
use crate::memset::{
    AreaView, MapAction, MapTrack, MappingFlags, MemSet, MemType, PAGE, areas_fit, is_inserted,
    make_tracks, max_area_end, spec_cow_maps, spec_map_new, spec_tracks,
};
use crate::elf::{LoadPlan, SegmentLoad};
use crate::path::{join, path_is_absolute, is_absolute, spec_join};

verus! {

/// Signal sent to a parent when a child exits.
pub const SIGCHLD: u8 = 17;

/// Index of the open-file limit in `rlimits`.
pub const RLIMIT_NOFILE: usize = 7;

/// Number of resource limits.
pub const RLIM_NLIMITS: usize = 16;

/// Open-file limit of a new process.
pub const DEFAULT_NOFILE: usize = 256;

/// The `fd` that stands for the working directory.
pub const AT_FDCWD: isize = -100;

/// An open file: the path it was opened by and its open flags.
pub struct File {
    pub path: String,
    pub flags: u32,
}

pub struct FileView {
    pub path: Seq<char>,
    pub flags: u32,
}

impl View for File {
    type V = FileView;

    open spec fn view(&self) -> FileView {
        FileView { path: self.path@, flags: self.flags }
    }
}

impl File {
    pub fn new(path: String, flags: u32) -> (r: File)
        ensures
            r@ == (FileView { path: path@, flags }),
    {
        File { path, flags }
    }

    pub fn duplicate(&self) -> (r: File)
        ensures
            r@ == self@,
    {
        File { path: self.path.clone(), flags: self.flags }
    }
}

pub open spec fn slot_view(o: Option<File>) -> Option<FileView> {
    match o {
        Some(f) => Some(f@),
        None => None,
    }
}

/// The abstract value of a file-descriptor table.
pub open spec fn fd_view(t: Seq<Option<File>>) -> Seq<Option<FileView>> {
    t.map_values(|o: Option<File>| slot_view(o))
}

/// Whether `i` is the lowest empty slot of `t`.
pub open spec fn is_first_free(t: Seq<Option<FileView>>, i: int) -> bool {
    0 <= i < t.len() && t[i] is None && forall|j: int| 0 <= j < i ==> t[j] is Some
}

/// Saved user registers that the core reads or writes.
#[derive(Clone, Copy, Debug, PartialEq, Eq, Structural)]
pub struct TrapFrame {
    pub sp: usize,
    pub ret: usize,
    pub pc: usize,
}

/// A shared-memory segment attached to a process.
pub struct SharedMapping {
    pub start: usize,
    pub size: usize,
    pub frames: Vec<usize>,
}

impl SharedMapping {
    pub fn duplicate(&self) -> (r: SharedMapping)
        ensures
            r.start == self.start,
            r.size == self.size,
            r.frames@ == self.frames@,
    {
        let mut f: Vec<usize> = Vec::new();
        let mut i: usize = 0;
        while i < self.frames.len()
            invariant
                i <= self.frames@.len(),
                f@ == self.frames@.take(i as int),
            decreases self.frames@.len() - i,
        {
            f.push(self.frames[i]);
            i = i + 1;
            assert(f@ =~= self.frames@.take(i as int));
        }
        assert(self.frames@.take(i as int) =~= self.frames@);
        SharedMapping { start: self.start, size: self.size, frames: f }
    }
}

/// A time in seconds and microseconds.
#[derive(Clone, Copy, Debug, PartialEq, Eq, Structural)]
pub struct TimeVal {
    pub sec: usize,
    pub usec: usize,
}

/// An interval timer: its period and the time left.
#[derive(Clone, Copy, Debug, PartialEq, Eq, Structural)]
pub struct ITimerVal {
    pub interval: TimeVal,
    pub value: TimeVal,
}

/// One of a process's interval timers, with its next and last expiry.
#[derive(Clone, Copy, Debug, PartialEq, Eq, Structural)]
pub struct ProcessTimer {
    pub timer: ITimerVal,
    pub next: TimeVal,
    pub last: TimeVal,
}

impl ProcessTimer {
    /// A disarmed timer.
    pub fn new() -> (r: ProcessTimer)
        ensures
            r.timer.value == (TimeVal { sec: 0, usec: 0 }),
            r.timer.interval == (TimeVal { sec: 0, usec: 0 }),
    {
        let z = TimeVal { sec: 0, usec: 0 };
        ProcessTimer { timer: ITimerVal { interval: z, value: z }, next: z, last: z }
    }
}

/// Per-process state, shared by the process's threads.
pub struct ProcessControlBlock {
    pub memset: MemSet,
    pub fd_table: Vec<Option<File>>,
    pub curr_dir: File,
    pub heap: usize,
    pub entry: usize,
    pub children: Vec<usize>,
    pub rlimits: Vec<usize>,
    pub futex_table: FutexTable,
    pub shms: Vec<SharedMapping>,
    pub timer: [ProcessTimer; 3],
    pub threads: Vec<usize>,
    pub exit_code: Option<usize>,
    /// Threads still running in the process.
    pub live_threads: usize,
}

/// Per-thread state.
pub struct ThreadControlBlock {
    pub cx: TrapFrame,
    pub sigmask: u64,
    pub clear_child_tid: usize,
    pub set_child_tid: usize,
    /// Pending signals, bit `n - 1` for signal `n`.
    pub signal: u64,
    pub exit_signal: u8,
    pub thread_exit_code: Option<u32>,
}

/// A thread: its id, its process's id (that of the main thread) and its
/// parent's id.
pub struct UserTask {
    pub task_id: usize,
    pub process_id: usize,
    pub parent: Option<usize>,
    pub tcb: ThreadControlBlock,
}

/// Pending signals after signal `sig` is raised.
pub open spec fn with_signal(set: u64, sig: u8) -> u64 {
    set | (1u64 << ((sig - 1) as u64))
}

/// The signal a parent gets when a child with `exit_signal` ends.
pub open spec fn child_signal(exit_signal: u8) -> u8 {
    if exit_signal != 0 {
        exit_signal
    } else {
        SIGCHLD
    }
}


/// What the hardware and scheduler layers do after a thread leaves.
pub struct ExitEffects {
    /// A user address to set to zero, the thread's `clear_child_tid`.
    pub clear_tid: Option<usize>,
    /// Tasks woken from the futex at that address.
    pub woken: Vec<usize>,
    /// Whether the thread's slot is released now.
    pub release: bool,
    /// The signal to raise in the parent's thread, if any.
    pub signal_parent: Option<u8>,
}

impl ThreadControlBlock {
    /// Marks signal `sig` pending.
    pub fn raise_signal(&mut self, sig: u8)
        requires
            1 <= sig <= 64,
        ensures
            *final(self) == (ThreadControlBlock { signal: with_signal(old(self).signal, sig), ..*old(self) }),
    {
        self.signal = self.signal | (1u64 << ((sig - 1) as u64));
    }

    pub fn new() -> (r: ThreadControlBlock)
        ensures
            r.cx == (TrapFrame { sp: 0, ret: 0, pc: 0 }),
            r.sigmask == 0,
            r.clear_child_tid == 0,
            r.set_child_tid == 0,
            r.signal == 0,
            r.exit_signal == 0,
            r.thread_exit_code is None,
    {
        ThreadControlBlock {
            cx: TrapFrame { sp: 0, ret: 0, pc: 0 },
            sigmask: 0,
            clear_child_tid: 0,
            set_child_tid: 0,
            signal: 0,
            exit_signal: 0,
            thread_exit_code: None,
        }
    }
}

/// A fresh resource-limit table.
fn rlimits_new() -> (r: Vec<usize>)
    ensures
        r@.len() == RLIM_NLIMITS,
        r@[RLIMIT_NOFILE as int] == DEFAULT_NOFILE,
{
    let mut r: Vec<usize> = Vec::new();
    let mut i: usize = 0;
    while i < RLIM_NLIMITS
        invariant
            i <= RLIM_NLIMITS,
            r@.len() == i,
            forall|k: int| 0 <= k < i && k == RLIMIT_NOFILE ==> r@[k] == DEFAULT_NOFILE,
        decreases RLIM_NLIMITS - i,
    {
        if i == RLIMIT_NOFILE {
            r.push(DEFAULT_NOFILE);
        } else {
            r.push(usize::MAX);
        }
        i = i + 1;
    }
    r
}

impl ProcessControlBlock {
    /// A process with nothing mapped, no open files and no children, working
    /// in `curr_dir`, whose one thread is `task_id`.
    pub fn new(task_id: usize, curr_dir: File) -> (r: ProcessControlBlock)
        ensures
            r.wf(),
            r.memset@ == Seq::<AreaView>::empty(),
            r.fd_table@ == Seq::<Option<File>>::empty(),
            r.curr_dir@ == curr_dir@,
            r.heap == 0,
            r.entry == 0,
            r.children@ == Seq::<usize>::empty(),
            r.rlimits@[RLIMIT_NOFILE as int] == DEFAULT_NOFILE,
            r.futex_table@ == Seq::<crate::futex::FutexWaiter>::empty(),
            r.shms@.len() == 0,
            r.threads@ == seq![task_id],
            r.exit_code is None,
            r.live_threads == 1,
    {
        let mut threads: Vec<usize> = Vec::new();
        threads.push(task_id);
        let r = ProcessControlBlock {
            memset: MemSet::new(),
            fd_table: Vec::new(),
            curr_dir,
            heap: 0,
            entry: 0,
            children: Vec::new(),
            rlimits: rlimits_new(),
            futex_table: FutexTable::new(),
            shms: Vec::new(),
            timer: [ProcessTimer::new(), ProcessTimer::new(), ProcessTimer::new()],
            threads,
            exit_code: None,
            live_threads: 1,
        };
        assert(r.threads@ =~= seq![task_id]);
        r
    }

    /// The limit table holds the open-file limit.
    pub open spec fn wf(&self) -> bool {
        self.rlimits@.len() > RLIMIT_NOFILE
    }

    pub open spec fn nofile(&self) -> int {
        self.rlimits@[RLIMIT_NOFILE as int] as int
    }

    /// The file at descriptor `index`, if one is open there.
    pub fn get_fd(&self, index: usize) -> (r: Option<File>)
        requires
            self.wf(),
        ensures
            index < self.nofile() && index < self.fd_table@.len() ==> slot_view(r) == slot_view(
                self.fd_table@[index as int],
            ),
            !(index < self.nofile() && index < self.fd_table@.len()) ==> r is None,
    {
        if index < self.rlimits[RLIMIT_NOFILE] && index < self.fd_table.len() {
            match &self.fd_table[index] {
                Some(f) => Some(f.duplicate()),
                None => None,
            }
        } else {
            None
        }
    }

    /// Opens `value` at descriptor `index`, growing the table with empty slots
    /// up to it; an index at or past the open-file limit is ignored.
    pub fn set_fd(&mut self, index: usize, value: File)
        requires
            old(self).wf(),
        ensures
            final(self).wf(),
            final(self).rlimits == old(self).rlimits,
            index < old(self).nofile() ==> {
                let t = fd_view(old(self).fd_table@);
                let grown = if index < t.len() {
                    t
                } else {
                    t + Seq::new((index + 1 - t.len()) as nat, |i: int| None::<FileView>)
                };
                fd_view(final(self).fd_table@) == grown.update(index as int, Some(value@))
            },
            index >= old(self).nofile() ==> fd_view(final(self).fd_table@) == fd_view(
                old(self).fd_table@,
            ),
    {
        if index >= self.rlimits[RLIMIT_NOFILE] {
            return ;
        }
        let ghost t = fd_view(self.fd_table@);
        while self.fd_table.len() <= index
            invariant
                index < usize::MAX,
                self.rlimits == old(self).rlimits,
                t == fd_view(old(self).fd_table@),
                fd_view(self.fd_table@) == t + Seq::new(
                    (self.fd_table@.len() - t.len()) as nat,
                    |i: int| None::<FileView>,
                ),
                self.fd_table@.len() >= t.len(),
                t.len() <= index ==> self.fd_table@.len() <= index + 1,
                t.len() > index ==> self.fd_table@.len() == t.len(),
            decreases index + 1 - self.fd_table@.len(),
        {
            let ghost before = fd_view(self.fd_table@);
            self.fd_table.push(None);
            assert(fd_view(self.fd_table@) =~= before.push(None));
            assert(fd_view(self.fd_table@) =~= t + Seq::new(
                (self.fd_table@.len() - t.len()) as nat,
                |i: int| None::<FileView>,
            ));
        }
        let ghost g = fd_view(self.fd_table@);
        self.fd_table.set(index, Some(value));
        assert(fd_view(self.fd_table@) =~= g.update(index as int, Some(value@)));
        proof {
            if index < t.len() {
                assert(g =~= t);
            } else {
                assert(g =~= t + Seq::new((index + 1 - t.len()) as nat, |i: int| None::<FileView>));
            }
        }
    }

    /// Closes descriptor `index`; an index past the table is ignored.
    pub fn clear_fd(&mut self, index: usize)
        ensures
            final(self).rlimits == old(self).rlimits,
            index < old(self).fd_table@.len() ==> fd_view(final(self).fd_table@) == fd_view(
                old(self).fd_table@,
            ).update(index as int, None),
            index >= old(self).fd_table@.len() ==> fd_view(final(self).fd_table@) == fd_view(
                old(self).fd_table@,
            ),
    {
        if index < self.fd_table.len() {
            self.fd_table.set(index, None);
            assert(fd_view(self.fd_table@) =~= fd_view(old(self).fd_table@).update(index as int, None));
        }
    }

    /// The lowest empty descriptor; when none is empty, a new one at the end
    /// if the open-file limit allows it.
    pub fn alloc_fd(&mut self) -> (r: Option<usize>)
        requires
            old(self).wf(),
        ensures
            final(self).wf(),
            final(self).rlimits == old(self).rlimits,
            ({
                let t = fd_view(old(self).fd_table@);
                if exists|i: int| 0 <= i < t.len() && #[trigger] t[i] is None {
                    (r matches Some(i) && is_first_free(t, i as int) && fd_view(final(self).fd_table@)
                        == t)
                } else if t.len() < old(self).nofile() {
                    r == Some(t.len() as usize) && fd_view(final(self).fd_table@) == t.push(None)
                } else {
                    r is None && fd_view(final(self).fd_table@) == t
                }
            }),
    {
        let ghost t = fd_view(self.fd_table@);
        let mut i: usize = 0;
        while i < self.fd_table.len()
            invariant
                self.fd_table@ == old(self).fd_table@,
                self.rlimits == old(self).rlimits,
                self.wf(),
                t == fd_view(self.fd_table@),
                i <= t.len(),
                forall|j: int| 0 <= j < i ==> t[j] is Some,
            decreases t.len() - i,
        {
            if self.fd_table[i].is_none() {
                assert(t[i as int] is None);
                assert(is_first_free(t, i as int));
                return Some(i);
            }
            i = i + 1;
        }
        if self.fd_table.len() < self.rlimits[RLIMIT_NOFILE] {
            self.fd_table.push(None);
            assert(fd_view(self.fd_table@) =~= t.push(None));
            Some(self.fd_table.len() - 1)
        } else {
            None
        }
    }

    /// The path that `filename` names, from descriptor `fd`: absolute names
    /// stand alone, others are relative to the working directory (`AT_FDCWD`)
    /// or to the file open at `fd`.
    pub fn fd_resolve(&self, fd: isize, filename: &str) -> (r: Result<String, Errno>)
        ensures
            is_absolute(filename@) ==> (r matches Ok(p) && p@ == filename@),
            !is_absolute(filename@) && fd == AT_FDCWD ==> (r matches Ok(p) && p@ == spec_join(
                self.curr_dir.path@,
                filename@,
            )),
            !is_absolute(filename@) && fd != AT_FDCWD ==> {
                let t = self.fd_table@;
                if 0 <= fd < t.len() && t[fd as int] is Some {
                    (r matches Ok(p) && p@ == spec_join(t[fd as int]->0.path@, filename@))
                } else {
                    r == Err::<String, Errno>(Errno::EBADF)
                }
            },
    {
        if path_is_absolute(filename) {
            return Ok(filename.to_owned());
        }
        if fd == AT_FDCWD {
            return Ok(join(self.curr_dir.path.as_str(), filename));
        }
        if fd < 0 || fd as usize >= self.fd_table.len() {
            return Err(Errno::EBADF);
        }
        match &self.fd_table[fd as usize] {
            Some(f) => Ok(join(f.path.as_str(), filename)),
            None => Err(Errno::EBADF),
        }
    }
}


/// The mappings that attach every shared-memory segment, writable.
pub open spec fn spec_shm_maps(shms: Seq<SharedMapping>) -> Seq<MapAction>
    decreases shms.len(),
{
    if shms.len() == 0 {
        Seq::empty()
    } else {
        let s = shms.last();
        spec_shm_maps(shms.drop_last()) + Seq::new(
            s.frames@.len(),
            |i: int|
                MapAction {
                    vaddr: (s.start + i * PAGE) as usize,
                    paddr: s.frames@[i],
                    flags: MappingFlags::URWX,
                },
        )
    }
}

/// Every shared-memory segment lies inside the address space.
pub open spec fn shms_fit(shms: Seq<SharedMapping>) -> bool {
    forall|i: int|
        0 <= i < shms.len() ==> #[trigger] shms[i].start + shms[i].frames@.len() * PAGE
            <= usize::MAX && shms[i].start + shms[i].size <= usize::MAX
}

/// The highest end of a shared-memory segment, 0 for none.
pub open spec fn max_shm_end(shms: Seq<SharedMapping>) -> int
    decreases shms.len(),
{
    if shms.len() == 0 {
        0
    } else {
        let rest = max_shm_end(shms.drop_last());
        let e = shms.last().start + shms.last().size;
        if e > rest {
            e
        } else {
            rest
        }
    }
}

/// The first page past the break `heap`.
pub open spec fn heap_page(heap: usize) -> int {
    (heap + PAGE - 1) / PAGE as int
}

/// The page addresses that a move of the break from `heap` to `addr` brings in.
pub open spec fn spec_sbrk_pages(heap: usize, addr: usize) -> Seq<usize> {
    let from = heap_page(heap);
    let to = heap_page(addr);
    if to <= from {
        Seq::empty()
    } else {
        Seq::new((to - from) as nat, |i: int| ((from + i) * PAGE) as usize)
    }
}

/// The code areas that `sbrk` adds: one per page that got a frame.
pub open spec fn sbrk_areas(pages: Seq<usize>, frames: Seq<Option<usize>>) -> Seq<AreaView>
    decreases pages.len(),
{
    if pages.len() == 0 || frames.len() == 0 {
        Seq::empty()
    } else {
        let rest = sbrk_areas(pages.drop_last(), frames.drop_last());
        match frames.last() {
            Some(f) => rest.push(
                AreaView {
                    mtype: MemType::CodeSection,
                    tracks: seq![MapTrack { vaddr: pages.last(), frame: f, rwx: 0 }],
                    file: None,
                    offset: 0,
                    start: pages.last(),
                    len: PAGE,
                },
            ),
            None => rest,
        }
    }
}

/// The mappings that `sbrk` asks for: each page that got a frame, writable.
/// Page 0 stands for "not placed", as in `map_frames`, and gets no mapping.
pub open spec fn sbrk_maps(pages: Seq<usize>, frames: Seq<Option<usize>>) -> Seq<MapAction>
    decreases pages.len(),
{
    if pages.len() == 0 || frames.len() == 0 {
        Seq::empty()
    } else {
        let rest = sbrk_maps(pages.drop_last(), frames.drop_last());
        match frames.last() {
            Some(f) => if pages.last() == 0 {
                rest
            } else {
                rest.push(MapAction { vaddr: pages.last(), paddr: f, flags: MappingFlags::URWX })
            },
            None => rest,
        }
    }
}

/// The highest end of any mapping other than the stack, shared segments
/// included; 0 for none.
pub open spec fn last_mapped_end(pcb: &ProcessControlBlock) -> int {
    if max_area_end(pcb.memset@) > max_shm_end(pcb.shms@) {
        max_area_end(pcb.memset@)
    } else {
        max_shm_end(pcb.shms@)
    }
}

/// The area that holds loaded segment `g` in frames `f`.
pub open spec fn load_area(g: SegmentLoad, f: Seq<usize>) -> AreaView {
    AreaView {
        mtype: MemType::CodeSection,
        tracks: spec_tracks(g.page_addr as usize, f),
        file: None,
        offset: 0,
        start: g.page_addr as usize,
        len: (g.page_count * PAGE) as usize,
    }
}

/// The areas of a freshly loaded image, one per segment, in order.
pub open spec fn load_areas(gs: Seq<SegmentLoad>, fs: Seq<Vec<usize>>) -> Seq<AreaView> {
    Seq::new(gs.len(), |i: int| load_area(gs[i], fs[i]@))
}

/// The mappings that place the loaded segments, writable, in order.
pub open spec fn load_maps(gs: Seq<SegmentLoad>, fs: Seq<Vec<usize>>) -> Seq<MapAction>
    decreases gs.len(),
{
    if gs.len() == 0 || fs.len() == 0 {
        Seq::empty()
    } else {
        load_maps(gs.drop_last(), fs.drop_last()) + spec_map_new(
            gs.last().page_addr as usize,
            spec_tracks(gs.last().page_addr as usize, fs.last()@),
        )
    }
}

/// Every segment has pages and lies inside the address space.
pub open spec fn segments_fit(gs: Seq<SegmentLoad>, fs: Seq<Vec<usize>>) -> bool {
    &&& fs.len() == gs.len()
    &&& forall|i: int|
        0 <= i < gs.len() ==> {
            let g = #[trigger] gs[i];
            &&& g.page_count > 0
            &&& fs[i]@.len() == g.page_count
            &&& g.page_addr + g.page_count * PAGE <= usize::MAX
        }
}

fn copy_frames(f: &Vec<usize>) -> (r: Vec<usize>)
    ensures
        r@ == f@,
{
    let mut r: Vec<usize> = Vec::new();
    let mut i: usize = 0;
    while i < f.len()
        invariant
            i <= f@.len(),
            r@ == f@.take(i as int),
        decreases f@.len() - i,
    {
        r.push(f[i]);
        i = i + 1;
        assert(r@ =~= f@.take(i as int));
    }
    assert(f@.take(i as int) =~= f@);
    r
}

/// `s` without the occurrences of `x`.
pub open spec fn without(s: Seq<usize>, x: usize) -> Seq<usize>
    decreases s.len(),
{
    if s.len() == 0 {
        Seq::empty()
    } else if s.last() == x {
        without(s.drop_last(), x)
    } else {
        without(s.drop_last(), x).push(s.last())
    }
}

/// `len` rounded up to a multiple of the word size.
pub open spec fn word_align(len: int) -> int {
    ((len + 7) / 8) * 8
}

fn shm_maps(shms: &Vec<SharedMapping>) -> (r: Vec<MapAction>)
    requires
        shms_fit(shms@),
    ensures
        r@ == spec_shm_maps(shms@),
{
    let mut r: Vec<MapAction> = Vec::new();
    let mut i: usize = 0;
    while i < shms.len()
        invariant
            i <= shms@.len(),
            shms_fit(shms@),
            r@ == spec_shm_maps(shms@.take(i as int)),
        decreases shms@.len() - i,
    {
        assert(shms@.take(i + 1).drop_last() =~= shms@.take(i as int));
        let s = &shms[i];
        let ghost r0 = r@;
        let ghost want = Seq::new(
            s.frames@.len(),
            |k: int|
                MapAction {
                    vaddr: (s.start + k * PAGE) as usize,
                    paddr: s.frames@[k],
                    flags: MappingFlags::URWX,
                },
        );
        let mut j: usize = 0;
        while j < s.frames.len()
            invariant
                j <= s.frames@.len(),
                s.start + s.frames@.len() * PAGE <= usize::MAX,
                r@ == r0 + want.take(j as int),
                want.len() == s.frames@.len(),
                forall|k: int| 0 <= k < want.len() ==> #[trigger] want[k] == (MapAction {
                    vaddr: (s.start + k * PAGE) as usize,
                    paddr: s.frames@[k],
                    flags: MappingFlags::URWX,
                }),
            decreases s.frames@.len() - j,
        {
            proof {
                assert(j * PAGE <= s.frames@.len() * PAGE) by (nonlinear_arith)
                    requires
                        j <= s.frames@.len(),
                ;
            }
            r.push(MapAction { vaddr: s.start + j * PAGE, paddr: s.frames[j], flags: MappingFlags::URWX });
            j = j + 1;
            assert(r@ =~= r0 + want.take(j as int));
        }
        assert(want.take(j as int) =~= want);
        i = i + 1;
    }
    assert(shms@.take(i as int) =~= shms@);
    r
}

impl UserTask {
    /// A new process with one thread, `task_id`, working in `curr_dir`.
    pub fn new(task_id: usize, parent: Option<usize>, curr_dir: File) -> (r: (UserTask, ProcessControlBlock))
        ensures
            r.0.task_id == task_id,
            r.0.process_id == task_id,
            r.0.parent == parent,
            r.0.tcb.signal == 0,
            r.0.tcb.thread_exit_code is None,
            r.0.tcb.exit_signal == 0,
            r.0.tcb.clear_child_tid == 0,
            r.0.tcb.set_child_tid == 0,
            r.0.tcb.sigmask == 0,
            r.0.tcb.cx == (TrapFrame { sp: 0, ret: 0, pc: 0 }),
            r.1.wf(),
            r.1.rlimits@[RLIMIT_NOFILE as int] == DEFAULT_NOFILE,
            r.1.futex_table@ == Seq::<crate::futex::FutexWaiter>::empty(),
            r.1.shms@.len() == 0,
            r.1.entry == 0,
            r.1.memset@ == Seq::<AreaView>::empty(),
            r.1.fd_table@.len() == 0,
            r.1.curr_dir@ == curr_dir@,
            r.1.heap == 0,
            r.1.children@.len() == 0,
            r.1.threads@ == seq![task_id],
            r.1.exit_code is None,
            r.1.live_threads == 1,
    {
        let pcb = ProcessControlBlock::new(task_id, curr_dir);
        (UserTask { task_id, process_id: task_id, parent, tcb: ThreadControlBlock::new() }, pcb)
    }

    /// The mapping of page `vaddr` to frame `paddr`; both are page aligned.
    pub fn map(&self, paddr: usize, vaddr: usize, flags: MappingFlags) -> (r: MapAction)
        requires
            paddr % PAGE == 0,
            vaddr % PAGE == 0,
        ensures
            r == (MapAction { vaddr, paddr, flags }),
    {
        MapAction { vaddr, paddr, flags }
    }

    pub fn get_task_id(&self) -> (r: usize)
        ensures
            r == self.task_id,
    {
        self.task_id
    }

    /// The exit code of the thread's process, once it has one.
    pub fn exit_code(&self, pcb: &ProcessControlBlock) -> (r: Option<usize>)
        ensures
            r == pcb.exit_code,
    {
        pcb.exit_code
    }

    /// Gives back the thread's slot; a thread must have exited, by itself or
    /// with its process, first.
    pub fn release(&self, pcb: &ProcessControlBlock) -> (r: usize)
        requires
            pcb.exit_code is Some || self.tcb.thread_exit_code is Some,
        ensures
            r == self.task_id,
    {
        self.task_id
    }

    /// A copy-on-write child of this thread's process, numbered `child_id`.
    /// The child gets copies of the descriptor table, break, working directory
    /// and shared-memory segments, and this thread's registers with a zero
    /// return value; it tracks the same frames as the parent. Both sides then
    /// map every tracked page read-only (`r.2` for the child, `r.3` for the
    /// parent), and the child attaches the shared segments writable.
    pub fn cow_fork(&self, pcb: &mut ProcessControlBlock, child_id: usize) -> (r: (
        UserTask,
        ProcessControlBlock,
        Vec<MapAction>,
        Vec<MapAction>,
    ))
        requires
            shms_fit(old(pcb).shms@),
        ensures
            r.0.task_id == child_id,
            r.0.process_id == child_id,
            r.0.parent == Some(self.task_id),
            r.0.tcb.cx == (TrapFrame { ret: 0, ..self.tcb.cx }),
            r.0.tcb.signal == 0,
            r.0.tcb.thread_exit_code is None,
            r.0.tcb.sigmask == 0,
            r.0.tcb.exit_signal == 0,
            r.0.tcb.clear_child_tid == 0,
            r.0.tcb.set_child_tid == 0,
            r.1.wf(),
            r.1.memset@ == old(pcb).memset@,
            fd_view(r.1.fd_table@) == fd_view(old(pcb).fd_table@),
            r.1.heap == old(pcb).heap,
            r.1.curr_dir@ == old(pcb).curr_dir@,
            r.1.shms@.len() == old(pcb).shms@.len(),
            forall|i: int|
                0 <= i < r.1.shms@.len() ==> (#[trigger] r.1.shms@[i]).start == old(pcb).shms@[i].start
                    && r.1.shms@[i].size == old(pcb).shms@[i].size && r.1.shms@[i].frames@ == old(
                    pcb,
                ).shms@[i].frames@,
            r.1.threads@ == seq![child_id],
            r.1.exit_code is None,
            r.1.live_threads == 1,
            r.2@ == spec_cow_maps(old(pcb).memset@) + spec_shm_maps(old(pcb).shms@),
            r.3@ == spec_cow_maps(old(pcb).memset@),
            final(pcb).children@ == old(pcb).children@.push(child_id),
            final(pcb).memset@ == old(pcb).memset@,
            final(pcb).heap == old(pcb).heap,
            fd_view(final(pcb).fd_table@) == fd_view(old(pcb).fd_table@),
            final(pcb).exit_code == old(pcb).exit_code,
            final(pcb).live_threads == old(pcb).live_threads,
    {
        let (mut child, mut cpcb) = UserTask::new(child_id, Some(self.task_id), pcb.curr_dir.duplicate());
        let mut fds: Vec<Option<File>> = Vec::new();
        let mut i: usize = 0;
        while i < pcb.fd_table.len()
            invariant
                i <= pcb.fd_table@.len(),
                fd_view(fds@) == fd_view(pcb.fd_table@).take(i as int),
            decreases pcb.fd_table@.len() - i,
        {
            let slot = match &pcb.fd_table[i] {
                Some(f) => Some(f.duplicate()),
                None => None,
            };
            let ghost f0 = fds@;
            fds.push(slot);
            assert(fd_view(fds@) =~= fd_view(f0).push(slot_view(slot)));
            i = i + 1;
            assert(fd_view(fds@) =~= fd_view(pcb.fd_table@).take(i as int));
        }
        assert(fd_view(pcb.fd_table@).take(i as int) =~= fd_view(pcb.fd_table@));
        cpcb.fd_table = fds;
        cpcb.heap = pcb.heap;
        child.tcb.cx = self.tcb.cx;
        child.tcb.cx.ret = 0;
        pcb.children.push(child_id);
        let mut shms: Vec<SharedMapping> = Vec::new();
        let mut k: usize = 0;
        while k < pcb.shms.len()
            invariant
                k <= pcb.shms@.len(),
                shms@.len() == k,
                forall|j: int|
                    0 <= j < k ==> (#[trigger] shms@[j]).start == pcb.shms@[j].start && shms@[j].size
                        == pcb.shms@[j].size && shms@[j].frames@ == pcb.shms@[j].frames@,
            decreases pcb.shms@.len() - k,
        {
            shms.push(pcb.shms[k].duplicate());
            k = k + 1;
        }
        cpcb.memset = pcb.memset.duplicate();
        let parent_maps = pcb.memset.cow_maps();
        let mut child_maps = pcb.memset.cow_maps();
        let mut extra = shm_maps(&pcb.shms);
        child_maps.append(&mut extra);
        cpcb.shms = shms;
        (child, cpcb, child_maps, parent_maps)
    }

    /// A new thread `new_id` in this thread's process: it shares the process
    /// state and page table, starts from this thread's registers with a zero
    /// return value and its signal mask, and has no pending signals.
    pub fn thread_clone(&self, pcb: &mut ProcessControlBlock, new_id: usize) -> (r: UserTask)
        requires
            old(pcb).live_threads < usize::MAX,
        ensures
            r.task_id == new_id,
            r.process_id == self.task_id,
            r.parent == self.parent,
            r.tcb.cx == (TrapFrame { ret: 0, ..self.tcb.cx }),
            r.tcb.sigmask == self.tcb.sigmask,
            r.tcb.signal == 0,
            r.tcb.clear_child_tid == 0,
            r.tcb.set_child_tid == 0,
            r.tcb.exit_signal == 0,
            r.tcb.thread_exit_code is None,
            final(pcb).threads@ == old(pcb).threads@.push(new_id),
            final(pcb).live_threads == old(pcb).live_threads + 1,
            final(pcb).exit_code == old(pcb).exit_code,
            final(pcb).children@ == old(pcb).children@,
            final(pcb).memset@ == old(pcb).memset@,
    {
        let mut tcb = ThreadControlBlock::new();
        tcb.cx = self.tcb.cx;
        tcb.cx.ret = 0;
        tcb.sigmask = self.tcb.sigmask;
        pcb.threads.push(new_id);
        pcb.live_threads = pcb.live_threads + 1;
        UserTask { task_id: new_id, process_id: self.task_id, parent: self.parent, tcb }
    }

    /// Zeroes `clear_child_tid`, if set, and wakes one waiter there.
    fn clear_child(&self, pcb: &mut ProcessControlBlock) -> (r: (Option<usize>, Vec<usize>))
        ensures
            self.tcb.clear_child_tid == 0 ==> r.0 is None && r.1@.len() == 0 && final(pcb).futex_table@
                == old(pcb).futex_table@,
            self.tcb.clear_child_tid != 0 ==> ({
                let u = self.tcb.clear_child_tid;
                let w = waiters(old(pcb).futex_table@, u);
                &&& r.0 == Some(u)
                &&& r.1@.len() == min(1, w.len() as int)
                &&& r.1@ == w.take(r.1@.len() as int)
                &&& waiters(final(pcb).futex_table@, u) == w.skip(r.1@.len() as int)
                &&& forall|b: usize| b != u ==> waiters(final(pcb).futex_table@, b) == waiters(
                    old(pcb).futex_table@,
                    b,
                )
            }),
            final(pcb).memset@ == old(pcb).memset@,
            final(pcb).fd_table@ == old(pcb).fd_table@,
            final(pcb).children@ == old(pcb).children@,
            final(pcb).exit_code == old(pcb).exit_code,
            final(pcb).live_threads == old(pcb).live_threads,
    {
        let uaddr = self.tcb.clear_child_tid;
        if uaddr != 0 {
            let woken = pcb.futex_table.futex_wake(uaddr, 1);
            (Some(uaddr), woken)
        } else {
            (None, Vec::new())
        }
    }

    /// This thread ends with `exit_code`. The last thread of a process also
    /// ends the process: its memory, descriptors and children go, it records
    /// the exit code, and the parent (`parent`, when it is still there) gets
    /// the thread's exit signal, `SIGCHLD` by default. A thread other than the
    /// main one leaves its process's children and is released at once.
    pub fn thread_exit(
        &mut self,
        pcb: &mut ProcessControlBlock,
        has_parent: bool,
        exit_code: usize,
    ) -> (r: ExitEffects)
        requires
            old(self).tcb.exit_signal <= 64,
        ensures
            final(self).tcb.thread_exit_code == Some(exit_code as u32),
            final(self).task_id == old(self).task_id,
            final(self).process_id == old(self).process_id,
            final(self).tcb.signal == old(self).tcb.signal,
            old(self).tcb.clear_child_tid != 0 ==> r.clear_tid == Some(old(self).tcb.clear_child_tid),
            old(self).tcb.clear_child_tid == 0 ==> r.clear_tid is None,
            old(self).tcb.clear_child_tid == 0 ==> r.woken@.len() == 0 && final(pcb).futex_table@
                == old(pcb).futex_table@,
            old(self).tcb.clear_child_tid != 0 ==> ({
                let u = old(self).tcb.clear_child_tid;
                let w = waiters(old(pcb).futex_table@, u);
                &&& r.woken@.len() == min(1, w.len() as int)
                &&& r.woken@ == w.take(r.woken@.len() as int)
                &&& waiters(final(pcb).futex_table@, u) == w.skip(r.woken@.len() as int)
                &&& forall|b: usize| b != u ==> waiters(final(pcb).futex_table@, b) == waiters(
                    old(pcb).futex_table@,
                    b,
                )
            }),
            old(pcb).live_threads == 1 ==> final(pcb).exit_code == Some(exit_code)
                && final(pcb).memset@.len() == 0 && final(pcb).fd_table@.len() == 0,
            old(pcb).live_threads != 1 ==> final(pcb).exit_code == old(pcb).exit_code,
            r.signal_parent == (if old(pcb).live_threads == 1 && has_parent {
                Some(child_signal(old(self).tcb.exit_signal))
            } else {
                None
            }),
            r.release == (old(self).task_id != old(self).process_id),
            final(pcb).children@ == ({
                let kept = if old(pcb).live_threads == 1 {
                    Seq::<usize>::empty()
                } else {
                    old(pcb).children@
                };
                if r.release {
                    without(kept, old(self).task_id)
                } else {
                    kept
                }
            }),
            old(pcb).live_threads != 1 ==> final(pcb).memset@ == old(pcb).memset@
                && final(pcb).fd_table@ == old(pcb).fd_table@,
            r.release && old(pcb).live_threads > 0 ==> final(pcb).live_threads == old(pcb).live_threads - 1,
            !r.release ==> final(pcb).live_threads == old(pcb).live_threads,
    {
        let (clear_tid, woken) = self.clear_child(pcb);
        self.tcb.thread_exit_code = Some(exit_code as u32);
        let exit_signal = self.tcb.exit_signal;
        let mut signal_parent: Option<u8> = None;
        if pcb.live_threads == 1 {
            pcb.memset.clear();
            pcb.fd_table.clear();
            pcb.children.clear();
            pcb.exit_code = Some(exit_code);
            if has_parent {
                signal_parent = Some(
                    if exit_signal != 0 {
                        exit_signal
                    } else {
                        SIGCHLD
                    },
                );
            }
        }
        let release = self.task_id != self.process_id;
        if release {
            let id = self.task_id;
            let mut kept: Vec<usize> = Vec::new();
            let mut i: usize = 0;
            while i < pcb.children.len()
                invariant
                    i <= pcb.children@.len(),
                    kept@ == without(pcb.children@.take(i as int), id),
                decreases pcb.children@.len() - i,
            {
                assert(pcb.children@.take(i + 1).drop_last() =~= pcb.children@.take(i as int));
                if pcb.children[i] != id {
                    kept.push(pcb.children[i]);
                }
                i = i + 1;
            }
            assert(pcb.children@.take(i as int) =~= pcb.children@);
            pcb.children = kept;
            if pcb.live_threads > 0 {
                pcb.live_threads = pcb.live_threads - 1;
            }
        }
        ExitEffects { clear_tid, woken, release, signal_parent }
    }

    /// The process ends with `exit_code`, recorded in its control block. When
    /// this is its last thread its memory and descriptors go. The parent, when
    /// it is still there, gets the thread's exit signal (`SIGCHLD` by default);
    /// without a parent the children are dropped.
    pub fn exit(
        &mut self,
        pcb: &mut ProcessControlBlock,
        has_parent: bool,
        exit_code: usize,
    ) -> (r: ExitEffects)
        requires
            old(self).tcb.exit_signal <= 64,
        ensures
            final(self).tcb == old(self).tcb,
            final(self).task_id == old(self).task_id,
            final(pcb).exit_code == Some(exit_code),
            old(self).tcb.clear_child_tid != 0 ==> r.clear_tid == Some(old(self).tcb.clear_child_tid),
            old(self).tcb.clear_child_tid == 0 ==> r.clear_tid is None,
            old(self).tcb.clear_child_tid == 0 ==> r.woken@.len() == 0 && final(pcb).futex_table@
                == old(pcb).futex_table@,
            old(self).tcb.clear_child_tid != 0 ==> ({
                let u = old(self).tcb.clear_child_tid;
                let w = waiters(old(pcb).futex_table@, u);
                &&& r.woken@.len() == min(1, w.len() as int)
                &&& r.woken@ == w.take(r.woken@.len() as int)
                &&& waiters(final(pcb).futex_table@, u) == w.skip(r.woken@.len() as int)
                &&& forall|b: usize| b != u ==> waiters(final(pcb).futex_table@, b) == waiters(
                    old(pcb).futex_table@,
                    b,
                )
            }),
            old(pcb).live_threads == 1 ==> final(pcb).memset@.len() == 0 && final(pcb).fd_table@.len()
                == 0 && final(pcb).children@.len() == 0,
            r.signal_parent == (if has_parent {
                Some(child_signal(old(self).tcb.exit_signal))
            } else {
                None
            }),
            !has_parent ==> final(pcb).children@.len() == 0,
            old(pcb).live_threads != 1 && has_parent ==> final(pcb).children@ == old(pcb).children@,
            old(pcb).live_threads != 1 ==> final(pcb).memset@ == old(pcb).memset@
                && final(pcb).fd_table@ == old(pcb).fd_table@,
            !r.release,
            final(pcb).live_threads == old(pcb).live_threads,
    {
        let (clear_tid, woken) = self.clear_child(pcb);
        pcb.exit_code = Some(exit_code);
        let exit_signal = self.tcb.exit_signal;
        if pcb.live_threads == 1 {
            pcb.memset.clear();
            pcb.fd_table.clear();
            pcb.children.clear();
        }
        let signal_parent = if has_parent {
            Some(
                if exit_signal != 0 {
                    exit_signal
                } else {
                    SIGCHLD
                },
            )
        } else {
            pcb.children.clear();
            None
        };
        ExitEffects { clear_tid, woken, release: false, signal_parent }
    }

    /// Ends the process as killed by `signal`.
    pub fn exit_with_signal(
        &mut self,
        pcb: &mut ProcessControlBlock,
        has_parent: bool,
        signal: usize,
    ) -> (r: ExitEffects)
        requires
            old(self).tcb.exit_signal <= 64,
            signal <= usize::MAX - 128,
        ensures
            final(pcb).exit_code == Some((128 + signal) as usize),
            final(self).tcb == old(self).tcb,
    {
        self.exit(pcb, has_parent, 128 + signal)
    }

    /// The stack pointer after a word is pushed; the word goes at the new
    /// stack pointer.
    pub fn push(&mut self, val: usize) -> (r: usize)
        requires
            old(self).tcb.cx.sp >= 8,
        ensures
            r == old(self).tcb.cx.sp - 8,
            final(self).tcb.cx == (TrapFrame { sp: r, ..old(self).tcb.cx }),
    {
        let sp = self.tcb.cx.sp - 8;
        self.tcb.cx.sp = sp;
        sp
    }

    /// Makes room on the stack for `len` bytes and a terminating zero, in
    /// whole words, and returns the new stack pointer, where the bytes go.
    pub fn push_arr(&mut self, len: usize) -> (r: usize)
        requires
            len + 8 <= usize::MAX,
            old(self).tcb.cx.sp >= word_align(len + 1),
        ensures
            r == old(self).tcb.cx.sp - word_align(len + 1),
            final(self).tcb.cx == (TrapFrame { sp: r, ..old(self).tcb.cx }),
    {
        let room = ((len + 1 + 7) / 8) * 8;
        let sp = self.tcb.cx.sp - room;
        self.tcb.cx.sp = sp;
        sp
    }

    /// Makes room for string `s` on the stack, as `push_arr` does.
    pub fn push_str(&mut self, s: &str) -> (r: usize)
        requires
            s.spec_bytes().len() + 8 <= usize::MAX,
            old(self).tcb.cx.sp >= word_align(s.spec_bytes().len() + 1int),
        ensures
            r == old(self).tcb.cx.sp - word_align(s.spec_bytes().len() + 1int),
            final(self).tcb.cx == (TrapFrame { sp: r, ..old(self).tcb.cx }),
    {
        self.push_arr(s.len())
    }
}

impl ProcessControlBlock {
    /// Records `count` frames allocated for `mtype` at `vaddr` (not placed when
    /// `vaddr` is 0), as `is_inserted` says, and returns the first frame and the
    /// mappings for the placed pages. `frames` is `None` when the allocator had
    /// too few frames; nothing changes then.
    pub fn map_frames(
        &mut self,
        vaddr: usize,
        mtype: MemType,
        count: usize,
        frames: Option<Vec<usize>>,
        file: Option<usize>,
        offset: usize,
        start: usize,
        len: usize,
    ) -> (r: Option<(usize, Vec<MapAction>)>)
        requires
            count > 0,
            frames matches Some(f) ==> f@.len() == count,
            vaddr + count * PAGE <= usize::MAX,
        ensures
            frames is None ==> r is None && final(self).memset@ == old(self).memset@,
            frames matches Some(f) ==> r matches Some((first, maps)) && first == f@[0] && maps@
                == spec_map_new(vaddr, spec_tracks(vaddr, f@)) && is_inserted(
                final(self).memset@,
                old(self).memset@,
                mtype,
                spec_tracks(vaddr, f@),
                file,
                offset,
                start,
                len,
            ),
            final(self).heap == old(self).heap,
            final(self).fd_table@ == old(self).fd_table@,
            final(self).rlimits == old(self).rlimits,
            final(self).shms@ == old(self).shms@,
    {
        match frames {
            None => None,
            Some(f) => {
                let (tracks, maps) = make_tracks(vaddr, &f);
                let first = f[0];
                self.memset.insert(mtype, tracks, file, offset, start, len);
                Some((first, maps))
            },
        }
    }

    /// `map_frames` of `count` pages at `vaddr`, not backed by a file.
    pub fn frame_alloc(&mut self, vaddr: usize, mtype: MemType, count: usize, frames: Option<Vec<usize>>) -> (r: Option<(usize, Vec<MapAction>)>)
        requires
            count > 0,
            frames matches Some(f) ==> f@.len() == count,
            vaddr + count * PAGE <= usize::MAX,
        ensures
            frames is None ==> r is None && final(self).memset@ == old(self).memset@,
            frames matches Some(f) ==> r matches Some((first, maps)) && first == f@[0] && maps@
                == spec_map_new(vaddr, spec_tracks(vaddr, f@)) && is_inserted(
                final(self).memset@,
                old(self).memset@,
                mtype,
                spec_tracks(vaddr, f@),
                None,
                0,
                vaddr,
                (count * PAGE) as usize,
            ),
            final(self).heap == old(self).heap,
            final(self).fd_table@ == old(self).fd_table@,
            final(self).rlimits == old(self).rlimits,
            final(self).shms@ == old(self).shms@,
    {
        self.map_frames(vaddr, mtype, count, frames, None, 0, vaddr, count * PAGE)
    }

    /// Replaces the address space by the image that `plan` describes: the old
    /// areas go, each segment becomes a code area over its frames
    /// (`frames[i]` for the `i`-th segment, from the allocator), and the
    /// returned mappings place those pages writable. The break starts at the
    /// plan's heap bottom and the entry point is recorded. Copying the file's
    /// bytes into the frames is left to the caller.
    pub fn apply_load_plan(&mut self, plan: &LoadPlan, frames: &Vec<Vec<usize>>) -> (r: Vec<MapAction>)
        requires
            segments_fit(plan.segments@, frames@),
            plan.heap_bottom <= usize::MAX,
            plan.entry_point <= usize::MAX,
        ensures
            final(self).memset@ == load_areas(plan.segments@, frames@),
            r@ == load_maps(plan.segments@, frames@),
            final(self).heap == plan.heap_bottom,
            final(self).entry == plan.entry_point,
            final(self).fd_table@ == old(self).fd_table@,
            final(self).rlimits == old(self).rlimits,
            final(self).shms@ == old(self).shms@,
    {
        self.memset.clear();
        let gs = &plan.segments;
        let mut maps: Vec<MapAction> = Vec::new();
        let mut i: usize = 0;
        while i < gs.len()
            invariant
                gs@ == plan.segments@,
                segments_fit(gs@, frames@),
                i <= gs@.len(),
                self.memset@ == load_areas(gs@.take(i as int), frames@.take(i as int)),
                maps@ == load_maps(gs@.take(i as int), frames@.take(i as int)),
                self.fd_table@ == old(self).fd_table@,
                self.rlimits == old(self).rlimits,
                self.shms@ == old(self).shms@,
            decreases gs@.len() - i,
        {
            let g = gs[i];
            assert(g.page_count > 0 && frames@[i as int]@.len() == g.page_count);
            assert(g.page_addr + g.page_count * PAGE <= usize::MAX);
            let f = copy_frames(&frames[i]);
            let vaddr = g.page_addr as usize;
            let count = g.page_count as usize;
            let ghost ms0 = self.memset@;
            let res = self.frame_alloc(vaddr, MemType::CodeSection, count, Some(f));
            let (_, mut m) = res.unwrap();
            let ghost m0 = maps@;
            maps.append(&mut m);
            proof {
                assert(gs@.take(i + 1).drop_last() =~= gs@.take(i as int));
                assert(frames@.take(i + 1).drop_last() =~= frames@.take(i as int));
                assert(self.memset@ =~= load_areas(gs@.take(i + 1), frames@.take(i + 1)));
                assert(maps@ =~= load_maps(gs@.take(i + 1), frames@.take(i + 1)));
            }
            i = i + 1;
        }
        proof {
            assert(gs@.take(i as int) =~= gs@);
            assert(frames@.take(i as int) =~= frames@);
        }
        self.heap = plan.heap_bottom as usize;
        self.entry = plan.entry_point as usize;
        maps
    }

    /// The pages that moving the break to `addr` brings in.
    pub fn sbrk_pages(&self, addr: usize) -> (r: Vec<usize>)
        requires
            self.heap + PAGE <= usize::MAX,
            addr + PAGE <= usize::MAX,
        ensures
            r@ == spec_sbrk_pages(self.heap, addr),
    {
        let from = (self.heap + PAGE - 1) / PAGE;
        let to = (addr + PAGE - 1) / PAGE;
        let mut r: Vec<usize> = Vec::new();
        let mut i: usize = from;
        while i < to
            invariant
                from == heap_page(self.heap),
                to == heap_page(addr),
                to * PAGE <= usize::MAX,
                from <= i <= to || (to <= from && i == from),
                r@ == spec_sbrk_pages(self.heap, addr).take(i - from),
            decreases to - i,
        {
            proof {
                assert(i * PAGE < to * PAGE) by (nonlinear_arith)
                    requires
                        i < to,
                ;
            }
            r.push(i * PAGE);
            i = i + 1;
            assert(r@ =~= spec_sbrk_pages(self.heap, addr).take(i - from));
        }
        assert(r@ =~= spec_sbrk_pages(self.heap, addr));
        r
    }

    /// Moves the break to `addr` and returns it. `frames[j]` is the frame the
    /// allocator gave for the `j`-th page that `sbrk_pages` lists, or `None`
    /// when it had none; each page that got a frame becomes a code area of its
    /// own, and the returned mappings place those pages writable.
    pub fn sbrk(&mut self, addr: usize, frames: &Vec<Option<usize>>) -> (r: (usize, Vec<MapAction>))
        requires
            old(self).heap + PAGE <= usize::MAX,
            addr + PAGE <= usize::MAX,
            frames@.len() == spec_sbrk_pages(old(self).heap, addr).len(),
        ensures
            r.0 == addr,
            final(self).heap == addr,
            final(self).memset@ == old(self).memset@ + sbrk_areas(
                spec_sbrk_pages(old(self).heap, addr),
                frames@,
            ),
            r.1@ == sbrk_maps(spec_sbrk_pages(old(self).heap, addr), frames@),
            final(self).fd_table@ == old(self).fd_table@,
            final(self).rlimits == old(self).rlimits,
    {
        let pages = self.sbrk_pages(addr);
        let ghost ms0 = self.memset@;
        let mut maps: Vec<MapAction> = Vec::new();
        let mut j: usize = 0;
        while j < pages.len()
            invariant
                pages@.len() == frames@.len(),
                j <= pages@.len(),
                forall|k: int| 0 <= k < pages@.len() ==> #[trigger] pages@[k] + PAGE <= usize::MAX,
                self.memset@ == ms0 + sbrk_areas(pages@.take(j as int), frames@.take(j as int)),
                maps@ == sbrk_maps(pages@.take(j as int), frames@.take(j as int)),
                self.fd_table@ == old(self).fd_table@,
                self.rlimits == old(self).rlimits,
                self.heap == old(self).heap,
            decreases pages@.len() - j,
        {
            proof {
                assert(pages@.take(j + 1).drop_last() =~= pages@.take(j as int));
                assert(frames@.take(j + 1).drop_last() =~= frames@.take(j as int));
            }
            match frames[j] {
                Some(f) => {
                    let mut one: Vec<usize> = Vec::new();
                    one.push(f);
                    let res = self.frame_alloc(pages[j], MemType::CodeSection, 1, Some(one));
                    let (_, mut m) = res.unwrap();
                    let ghost m0 = maps@;
                    maps.append(&mut m);
                    proof {
                        assert(spec_tracks(pages@[j as int], seq![f]) =~= seq![
                            MapTrack { vaddr: pages@[j as int], frame: f, rwx: 0 },
                        ]);
                        assert(self.memset@ =~= ms0 + sbrk_areas(
                            pages@.take(j + 1),
                            frames@.take(j + 1),
                        ));
                        assert(maps@ =~= sbrk_maps(pages@.take(j + 1), frames@.take(j + 1)));
                    }
                },
                None => {
                    proof {
                        assert(self.memset@ =~= ms0 + sbrk_areas(
                            pages@.take(j + 1),
                            frames@.take(j + 1),
                        ));
                        assert(maps@ =~= sbrk_maps(pages@.take(j + 1), frames@.take(j + 1)));
                    }
                },
            }
            j = j + 1;
        }
        proof {
            assert(pages@.take(j as int) =~= pages@);
            assert(frames@.take(j as int) =~= frames@);
        }
        self.heap = addr;
        (addr, maps)
    }

    /// The end of the highest mapping other than the stack: the hint for a
    /// new anonymous mapping.
    pub fn get_last_free_addr(&self) -> (r: usize)
        requires
            areas_fit(self.memset@),
            shms_fit(self.shms@),
            last_mapped_end(self) + PAGE - 1 <= usize::MAX,
        ensures
            r % PAGE == 0,
            last_mapped_end(self) <= r < last_mapped_end(self) + PAGE,
    {
        let map_last = self.memset.last_area_end();
        let mut shm_last: usize = 0;
        let mut i: usize = 0;
        while i < self.shms.len()
            invariant
                i <= self.shms@.len(),
                shms_fit(self.shms@),
                last_mapped_end(self) + PAGE - 1 <= usize::MAX,
                map_last == max_area_end(self.memset@),
                shm_last == max_shm_end(self.shms@.take(i as int)),
            decreases self.shms@.len() - i,
        {
            assert(self.shms@.take(i + 1).drop_last() =~= self.shms@.take(i as int));
            let e = self.shms[i].start + self.shms[i].size;
            if e > shm_last {
                shm_last = e;
            }
            i = i + 1;
        }
        assert(self.shms@.take(i as int) =~= self.shms@);
        let m = if map_last > shm_last {
            map_last
        } else {
            shm_last
        };
        assert(m == last_mapped_end(self));
        let q = (m + (PAGE - 1)) / PAGE;
        assert(q * PAGE <= m + PAGE - 1) by (nonlinear_arith)
            requires
                q == (m + PAGE - 1) / PAGE as int,
                PAGE == 4096,
        ;
        let r = q * PAGE;
        assert(r % PAGE == 0 && m <= r < m + PAGE) by (nonlinear_arith)
            requires
                r == q * PAGE,
                q == (m + PAGE - 1) / PAGE as int,
                PAGE == 4096,
        ;
        r
    }
}


/// Once descriptor `k` is closed while every lower one is open, `k` is the
/// lowest empty slot, so the next `alloc_fd` returns it.
pub proof fn law_cleared_fd_reused(t: Seq<Option<FileView>>, k: int)
    requires
        0 <= k < t.len(),
        forall|j: int| 0 <= j < k ==> t[j] is Some,
    ensures
        forall|i: int| is_first_free(t.update(k, None), i) <==> i == k,
{
    let u = t.update(k, None);
    assert forall|i: int| is_first_free(u, i) <==> i == k by {
        if is_first_free(u, i) && i != k {
            if i < k {
                assert(u[i] == t[i]);
            } else {
                assert(u[k] is None);
            }
        }
        if i == k {
            assert forall|j: int| 0 <= j < i implies u[j] is Some by {
                assert(u[j] == t[j]);
            }
        }
    }
}

/// After a copy-on-write fork, parent and child both map every page that the
/// parent tracked to the same frame, read-only: they see the same bytes until
/// one of them writes.
pub proof fn law_cow_fork_shares_frames(ms: Seq<AreaView>, shms: Seq<SharedMapping>, a: int, t: int)
    requires
        0 <= a < ms.len(),
        0 <= t < ms[a].tracks.len(),
    ensures
        ({
            let m = MapAction {
                vaddr: ms[a].tracks[t].vaddr,
                paddr: ms[a].tracks[t].frame,
                flags: MappingFlags::URX,
            };
            &&& spec_cow_maps(ms).contains(m)
            &&& (spec_cow_maps(ms) + spec_shm_maps(shms)).contains(m)
        }),
    decreases ms.len(),
{
    let m = MapAction {
        vaddr: ms[a].tracks[t].vaddr,
        paddr: ms[a].tracks[t].frame,
        flags: MappingFlags::URX,
    };
    let rest = spec_cow_maps(ms.drop_last());
    let last = ms.last().tracks.map_values(
        |x: MapTrack| MapAction { vaddr: x.vaddr, paddr: x.frame, flags: MappingFlags::URX },
    );
    assert(spec_cow_maps(ms) == rest + last);
    if a == ms.len() - 1 {
        assert(last[t] == m);
        assert((rest + last)[rest.len() + t] == m);
    } else {
        law_cow_fork_shares_frames(ms.drop_last(), shms, a, t);
        assert(ms.drop_last()[a] == ms[a]);
        let k = choose|k: int| 0 <= k < rest.len() && rest[k] == m;
        assert((rest + last)[k] == m);
    }
    let k = choose|k: int| 0 <= k < spec_cow_maps(ms).len() && spec_cow_maps(ms)[k] == m;
    assert((spec_cow_maps(ms) + spec_shm_maps(shms))[k] == m);
}

} // verus!
