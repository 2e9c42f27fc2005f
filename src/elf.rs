use vstd::prelude::*;
use vstd::string::StringExecFns;
use crate::errno::Errno;
use crate::path::{join, spec_join};

verus! {

/// Size of a page.
pub const PAGE_SIZE: u64 = 4096;

/// Load base of a dynamically relocated image.
pub const USER_DYN_ADDR: u64 = 0x2000_0000;

/// The kind of a program header.
#[derive(Clone, Copy, Debug, PartialEq, Eq, Structural)]
pub enum SegmentType {
    Load,
    Interp,
    Phdr,
    Other,
}

/// One program header of an ELF image.
#[derive(Clone, Copy, Debug, PartialEq, Eq, Structural)]
pub struct ProgramHeader {
    pub ph_type: SegmentType,
    pub offset: u64,
    pub virtual_addr: u64,
    pub file_size: u64,
    pub mem_size: u64,
}

/// What the loader reads of a parsed ELF image.
#[derive(Clone, Debug)]
pub struct ElfImage {
    pub entry_point: u64,
    pub ph_offset: u64,
    pub ph_count: u16,
    pub ph_entry_size: u16,
    pub headers: Vec<ProgramHeader>,
    /// Whether `.rela.dyn` is present and is a table of 64-bit relocations.
    pub dynamic: bool,
}

/// Every address the loader computes from the image fits in 64 bits.
pub open spec fn image_fits(img: ElfImage) -> bool {
    forall|i: int|
        0 <= i < img.headers@.len() ==> {
            let h = #[trigger] img.headers@[i];
            h.virtual_addr + h.mem_size + USER_DYN_ADDR + PAGE_SIZE <= u64::MAX
        }
}

/// Whether every address the loader computes from `img` fits in 64 bits.
pub fn fits(img: &ElfImage) -> (r: bool)
    ensures
        r == image_fits(*img),
{
    let hs = &img.headers;
    let mut i: usize = 0;
    while i < hs.len()
        invariant
            hs@ == img.headers@,
            i <= hs@.len(),
            forall|k: int|
                0 <= k < i ==> {
                    let h = #[trigger] hs@[k];
                    h.virtual_addr + h.mem_size + USER_DYN_ADDR + PAGE_SIZE <= u64::MAX
                },
        decreases hs@.len() - i,
    {
        let h = hs[i];
        if h.virtual_addr > u64::MAX - USER_DYN_ADDR - PAGE_SIZE {
            return false;
        }
        if h.mem_size > u64::MAX - USER_DYN_ADDR - PAGE_SIZE - h.virtual_addr {
            return false;
        }
        i = i + 1;
    }
    true
}

/// `x` rounded up to a whole number of pages.
pub open spec fn page_ceil(x: int) -> int {
    ((x + PAGE_SIZE - 1) / PAGE_SIZE as int) * PAGE_SIZE
}

/// The highest end address of any segment, 0 for none.
pub open spec fn max_end(hs: Seq<ProgramHeader>) -> int
    decreases hs.len(),
{
    if hs.len() == 0 {
        0
    } else {
        let rest = max_end(hs.drop_last());
        let e = hs.last().virtual_addr + hs.last().mem_size;
        if e > rest {
            e
        } else {
            rest
        }
    }
}

/// Whether the PHDR address may be inferred from this header: a segment loaded
/// from the start of the file.
pub open spec fn loads_file_start(h: ProgramHeader) -> bool {
    h.ph_type == SegmentType::Load && h.offset == 0
}

/// Where the program headers are in memory: a `PT_PHDR` segment's address,
/// else that of a segment loaded from the start of the file plus the header
/// table's offset, else `EBADF`. The first matching header counts.
pub open spec fn is_ph_addr(r: Result<u64, Errno>, hs: Seq<ProgramHeader>, ph_offset: u64) -> bool {
    if exists|i: int| 0 <= i < hs.len() && #[trigger] hs[i].ph_type == SegmentType::Phdr {
        exists|i: int|
            0 <= i < hs.len() && #[trigger] hs[i].ph_type == SegmentType::Phdr && (forall|k: int|
                0 <= k < i ==> hs[k].ph_type != SegmentType::Phdr) && r == Ok::<u64, Errno>(
                hs[i].virtual_addr,
            )
    } else if exists|i: int| 0 <= i < hs.len() && #[trigger] loads_file_start(hs[i]) {
        exists|i: int|
            0 <= i < hs.len() && #[trigger] loads_file_start(hs[i]) && (forall|k: int|
                0 <= k < i ==> !loads_file_start(hs[k])) && r == Ok::<u64, Errno>(
                hs[i].virtual_addr.wrapping_add(ph_offset),
            )
    } else {
        r == Err::<u64, Errno>(Errno::EBADF)
    }
}

/// The in-memory address of the program header table.
pub fn get_ph_addr(hs: &Vec<ProgramHeader>, ph_offset: u64) -> (r: Result<u64, Errno>)
    ensures
        is_ph_addr(r, hs@, ph_offset),
{
    let mut i: usize = 0;
    while i < hs.len()
        invariant
            i <= hs@.len(),
            forall|k: int| 0 <= k < i ==> hs@[k].ph_type != SegmentType::Phdr,
        decreases hs@.len() - i,
    {
        if hs[i].ph_type == SegmentType::Phdr {
            return Ok(hs[i].virtual_addr);
        }
        i = i + 1;
    }
    let mut j: usize = 0;
    while j < hs.len()
        invariant
            j <= hs@.len(),
            forall|k: int| 0 <= k < hs@.len() ==> hs@[k].ph_type != SegmentType::Phdr,
            forall|k: int| 0 <= k < j ==> !loads_file_start(hs@[k]),
        decreases hs@.len() - j,
    {
        let h = hs[j];
        if h.ph_type == SegmentType::Load && h.offset == 0 {
            assert(loads_file_start(hs@[j as int]));
            return Ok(h.virtual_addr.wrapping_add(ph_offset));
        }
        j = j + 1;
    }
    Err(Errno::EBADF)
}

/// The heap starts at the first page past every segment.
pub fn heap_bottom(hs: &Vec<ProgramHeader>) -> (r: u64)
    requires
        forall|i: int|
            0 <= i < hs@.len() ==> #[trigger] hs@[i].virtual_addr + hs@[i].mem_size + PAGE_SIZE
                <= u64::MAX,
    ensures
        r == page_ceil(max_end(hs@)),
{
    let mut m: u64 = 0;
    let mut i: usize = 0;
    while i < hs.len()
        invariant
            i <= hs@.len(),
            forall|i: int|
                0 <= i < hs@.len() ==> #[trigger] hs@[i].virtual_addr + hs@[i].mem_size + PAGE_SIZE
                    <= u64::MAX,
            m == max_end(hs@.take(i as int)),
            m + PAGE_SIZE <= u64::MAX,
        decreases hs@.len() - i,
    {
        proof {
            assert(hs@.take(i + 1).drop_last() =~= hs@.take(i as int));
        }
        let e = hs[i].virtual_addr + hs[i].mem_size;
        if e > m {
            m = e;
        }
        i = i + 1;
    }
    assert(hs@.take(hs@.len() as int) =~= hs@);
    ((m + PAGE_SIZE - 1) / PAGE_SIZE) * PAGE_SIZE
}

/// How one loadable segment is placed.
#[derive(Clone, Copy, Debug, PartialEq, Eq, Structural)]
pub struct SegmentLoad {
    /// First page of the segment.
    pub page_addr: u64,
    /// Pages to allocate, as code.
    pub page_count: u64,
    /// Where in the first page the segment's bytes start.
    pub page_offset: u64,
    /// Where the bytes are in the file.
    pub file_offset: u64,
    /// How many bytes to copy; the rest of the pages stay zero.
    pub file_size: u64,
}

/// The placement of segment `h` when the image is loaded at `base`.
pub open spec fn spec_segment(h: ProgramHeader, base: u64) -> SegmentLoad {
    let virt = base + h.virtual_addr;
    let first = virt / PAGE_SIZE as int;
    SegmentLoad {
        page_addr: (first * PAGE_SIZE) as u64,
        page_count: ((virt + h.mem_size + PAGE_SIZE - 1) / PAGE_SIZE as int - first) as u64,
        page_offset: (virt % PAGE_SIZE as int) as u64,
        file_offset: h.offset,
        file_size: h.file_size,
    }
}

/// The placements of the loadable segments, in header order.
pub open spec fn load_segments(hs: Seq<ProgramHeader>, base: u64) -> Seq<SegmentLoad>
    decreases hs.len(),
{
    if hs.len() == 0 {
        Seq::empty()
    } else {
        let rest = load_segments(hs.drop_last(), base);
        if hs.last().ph_type == SegmentType::Load {
            rest.push(spec_segment(hs.last(), base))
        } else {
            rest
        }
    }
}

fn segment(h: ProgramHeader, base: u64) -> (r: SegmentLoad)
    requires
        h.virtual_addr + h.mem_size + base + PAGE_SIZE <= u64::MAX,
    ensures
        r == spec_segment(h, base),
{
    let virt = base + h.virtual_addr;
    let first = virt / PAGE_SIZE;
    SegmentLoad {
        page_addr: first * PAGE_SIZE,
        page_count: (virt + h.mem_size + PAGE_SIZE - 1) / PAGE_SIZE - first,
        page_offset: virt % PAGE_SIZE,
        file_offset: h.offset,
        file_size: h.file_size,
    }
}

/// The placement of every loadable segment.
pub fn plan_segments(hs: &Vec<ProgramHeader>, base: u64) -> (r: Vec<SegmentLoad>)
    requires
        base <= USER_DYN_ADDR,
        forall|i: int|
            0 <= i < hs@.len() ==> {
                let h = #[trigger] hs@[i];
                h.virtual_addr + h.mem_size + USER_DYN_ADDR + PAGE_SIZE <= u64::MAX
            },
    ensures
        r@ == load_segments(hs@, base),
{
    let mut r: Vec<SegmentLoad> = Vec::new();
    let mut i: usize = 0;
    while i < hs.len()
        invariant
            i <= hs@.len(),
            base <= USER_DYN_ADDR,
            forall|i: int|
                0 <= i < hs@.len() ==> {
                    let h = #[trigger] hs@[i];
                    h.virtual_addr + h.mem_size + USER_DYN_ADDR + PAGE_SIZE <= u64::MAX
                },
            r@ == load_segments(hs@.take(i as int), base),
        decreases hs@.len() - i,
    {
        proof {
            assert(hs@.take(i + 1).drop_last() =~= hs@.take(i as int));
        }
        let h = hs[i];
        if h.ph_type == SegmentType::Load {
            r.push(segment(h, base));
        }
        i = i + 1;
    }
    assert(hs@.take(hs@.len() as int) =~= hs@);
    r
}

/// Everything needed to map an image and start it.
#[derive(Clone, Debug)]
pub struct LoadPlan {
    /// The program's path, resolved.
    pub path: String,
    /// Load base: `USER_DYN_ADDR` for a relocatable image, else 0.
    pub base: u64,
    pub entry_point: u64,
    pub heap_bottom: u64,
    /// Address of the program headers, 0 when it cannot be found.
    pub ph_addr: u64,
    pub ph_count: u16,
    pub ph_entry_size: u16,
    pub segments: Vec<SegmentLoad>,
}

/// What `exec` does next with the file it read.
#[derive(Clone, Debug)]
pub enum ExecStep {
    /// Start over with this program and these arguments.
    Reenter { path: String, args: Vec<String> },
    /// Load this image.
    Load(LoadPlan),
}

/// `args` with `pre` in front.
pub open spec fn prepend(pre: Seq<Seq<char>>, args: Seq<String>) -> Seq<Seq<char>> {
    pre + args.map_values(|a: String| a@)
}

/// Whether an image asks for an interpreter.
pub open spec fn has_interp(hs: Seq<ProgramHeader>) -> bool {
    exists|i: int| 0 <= i < hs.len() && #[trigger] hs[i].ph_type == SegmentType::Interp
}

pub open spec fn views(v: Seq<String>) -> Seq<Seq<char>> {
    v.map_values(|a: String| a@)
}

/// Whether some program header asks for an interpreter.
pub fn find_interp(hs: &Vec<ProgramHeader>) -> (r: bool)
    ensures
        r == has_interp(hs@),
{
    let mut i: usize = 0;
    while i < hs.len()
        invariant
            i <= hs@.len(),
            forall|k: int| 0 <= k < i ==> hs@[k].ph_type != SegmentType::Interp,
        decreases hs@.len() - i,
    {
        if hs[i].ph_type == SegmentType::Interp {
            return true;
        }
        i = i + 1;
    }
    false
}

fn prepend_args(pre: Vec<String>, args: &Vec<String>) -> (r: Vec<String>)
    ensures
        views(r@) == views(pre@) + views(args@),
{
    let mut r = pre;
    let ghost p = r@;
    let mut i: usize = 0;
    while i < args.len()
        invariant
            i <= args@.len(),
            views(r@) == views(p) + views(args@.take(i as int)),
        decreases args@.len() - i,
    {
        let a = args[i].clone();
        let ghost old_r = r@;
        r.push(a);
        proof {
            assert(views(r@) =~= views(old_r).push(a@));
            assert(views(args@.take(i + 1)) =~= views(args@.take(i as int)).push(a@));
            assert(views(r@) =~= views(p) + views(args@.take(i + 1)));
        }
        i = i + 1;
    }
    assert(args@.take(args@.len() as int) =~= args@);
    r
}

/// The step that `exec_step` takes: see there.
pub open spec fn is_exec_step(
    r: ExecStep,
    cwd: Seq<char>,
    path: Seq<char>,
    args: Seq<Seq<char>>,
    image: Option<ElfImage>,
) -> bool {
    match image {
        None => match r {
            ExecStep::Reenter { path: p, args: a } => p@ == "busybox"@ && views(a@) == seq![
                "busybox"@,
                "sh"@,
            ] + args,
            _ => false,
        },
        Some(img) => if has_interp(img.headers@) {
            match r {
                ExecStep::Reenter { path: p, args: a } => p@ == "libc.so"@ && views(a@) == seq![
                    "libc.so"@,
                ] + args,
                _ => false,
            }
        } else {
            match r {
                ExecStep::Load(plan) => {
                    &&& plan.path@ == spec_join(cwd, path)
                    &&& plan.base == (if img.dynamic {
                        USER_DYN_ADDR
                    } else {
                        0
                    })
                    &&& plan.entry_point == img.entry_point
                    &&& plan.heap_bottom == page_ceil(max_end(img.headers@))
                    &&& (is_ph_addr(Ok(plan.ph_addr), img.headers@, img.ph_offset) || (is_ph_addr(
                        Err(Errno::EBADF),
                        img.headers@,
                        img.ph_offset,
                    ) && plan.ph_addr == 0))
                    &&& plan.ph_count == img.ph_count
                    &&& plan.ph_entry_size == img.ph_entry_size
                    &&& plan.segments@ == load_segments(img.headers@, plan.base)
                },
                _ => false,
            }
        },
    }
}

/// Decides how `exec` goes on once the file at `path` (relative to `cwd`) has
/// been read: `image` is `None` when the bytes are not an ELF image. Such a
/// file is run by the shell; an image that asks for an interpreter is run by
/// the C library's loader; any other image is loaded.
pub fn exec_step(cwd: &str, path: &str, args: &Vec<String>, image: &Option<ElfImage>) -> (r:
    ExecStep)
    requires
        *image matches Some(img) ==> (!has_interp(img.headers@) ==> image_fits(img)),
    ensures
        is_exec_step(r, cwd@, path@, views(args@), *image),
{
    match image {
        None => {
            let pre = vec![String::from_str("busybox"), String::from_str("sh")];
            let a = prepend_args(pre, args);
            assert(views(pre@) =~= seq!["busybox"@, "sh"@]);
            ExecStep::Reenter { path: String::from_str("busybox"), args: a }
        },
        Some(img) => {
            if find_interp(&img.headers) {
                let pre = vec![String::from_str("libc.so")];
                let a = prepend_args(pre, args);
                assert(views(pre@) =~= seq!["libc.so"@]);
                return ExecStep::Reenter { path: String::from_str("libc.so"), args: a };
            }
            let base = if img.dynamic {
                USER_DYN_ADDR
            } else {
                0
            };
            let ph_addr = match get_ph_addr(&img.headers, img.ph_offset) {
                Ok(a) => a,
                Err(_) => 0,
            };
            let plan = LoadPlan {
                path: join(cwd, path),
                base,
                entry_point: img.entry_point,
                heap_bottom: heap_bottom(&img.headers),
                ph_addr,
                ph_count: img.ph_count,
                ph_entry_size: img.ph_entry_size,
                segments: plan_segments(&img.headers, base),
            };
            ExecStep::Load(plan)
        },
    }
}

} // verus!
