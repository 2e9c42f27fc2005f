use task_kernel::errno::Errno;
use task_kernel::memset::{MapAction, MappingFlags, MemType, PAGE, STACK_LEN, STACK_START};
use task_kernel::elf::{LoadPlan, SegmentLoad};
use task_kernel::task::{File, SharedMapping, UserTask, AT_FDCWD, SIGCHLD};

fn dir(p: &str) -> File {
    File::new(p.to_string(), 0)
}

#[test]
fn alloc_fd_lowest_and_reuse() {
    let (_t, mut pcb) = UserTask::new(1, None, dir("/"));
    assert_eq!(pcb.alloc_fd(), Some(0));
    pcb.set_fd(0, dir("/a"));
    assert_eq!(pcb.alloc_fd(), Some(1));
    pcb.set_fd(1, dir("/b"));
    assert_eq!(pcb.alloc_fd(), Some(2));
    pcb.set_fd(2, dir("/c"));
    pcb.clear_fd(1);
    assert_eq!(pcb.alloc_fd(), Some(1));
    assert_eq!(pcb.get_fd(0).unwrap().path, "/a");
    assert!(pcb.get_fd(1).is_none());
    assert!(pcb.get_fd(99).is_none());
}

#[test]
fn fd_limit_and_growth() {
    let (_t, mut pcb) = UserTask::new(1, None, dir("/"));
    pcb.rlimits[7] = 2;
    pcb.set_fd(0, dir("/a"));
    pcb.set_fd(1, dir("/b"));
    assert_eq!(pcb.alloc_fd(), None);
    pcb.set_fd(5, dir("/c"));
    assert!(pcb.get_fd(5).is_none());
    pcb.rlimits[7] = 10;
    pcb.set_fd(5, dir("/c"));
    assert_eq!(pcb.fd_table.len(), 6);
    assert_eq!(pcb.alloc_fd(), Some(2));
}

#[test]
fn fd_resolve_paths() {
    let (_t, mut pcb) = UserTask::new(1, None, dir("/home"));
    pcb.set_fd(3, dir("/etc"));
    assert_eq!(pcb.fd_resolve(AT_FDCWD, "/bin/sh"), Ok("/bin/sh".to_string()));
    assert_eq!(pcb.fd_resolve(AT_FDCWD, "x"), Ok("/home/x".to_string()));
    assert_eq!(pcb.fd_resolve(3, "passwd"), Ok("/etc/passwd".to_string()));
    assert_eq!(pcb.fd_resolve(4, "passwd"), Err(Errno::EBADF));
    assert_eq!(pcb.fd_resolve(-5, "passwd"), Err(Errno::EBADF));
}

#[test]
fn fork_then_child_exit_signals_parent() {
    let (mut parent, mut ppcb) = UserTask::new(1, None, dir("/"));
    parent.tcb.cx.ret = 77;
    parent.tcb.cx.sp = 0x1000;
    let (mut child, mut cpcb, _cm, _pm) = parent.cow_fork(&mut ppcb, 2);
    assert_eq!(child.tcb.cx.ret, 0);
    assert_eq!(child.tcb.cx.sp, 0x1000);
    assert_eq!(child.parent, Some(1));
    assert_eq!(ppcb.children, vec![2]);
    let fx = child.exit(&mut cpcb, true, 5);
    assert_eq!(fx.signal_parent, Some(SIGCHLD));
    parent.tcb.raise_signal(fx.signal_parent.unwrap());
    assert_ne!(parent.tcb.signal & (1u64 << (SIGCHLD - 1)), 0);
    assert_eq!(child.exit_code(&cpcb), Some(5));
    assert_eq!(child.release(&cpcb), 2);
}

#[test]
fn cow_fork_shares_every_page() {
    let (parent, mut ppcb) = UserTask::new(1, None, dir("/"));
    let frames = vec![0x8000_0000, 0x8000_1000, 0x8000_2000, 0x8000_3000];
    let (first, maps) = ppcb
        .frame_alloc(0x1000_0000, MemType::Mmap, 4, Some(frames.clone()))
        .unwrap();
    assert_eq!(first, 0x8000_0000);
    assert_eq!(maps.len(), 4);
    assert!(maps.iter().all(|m| m.flags == MappingFlags::URWX));
    assert_eq!(maps[2], MapAction { vaddr: 0x1000_2000, paddr: 0x8000_2000, flags: MappingFlags::URWX });
    let (_child, cpcb, child_maps, parent_maps) = parent.cow_fork(&mut ppcb, 2);
    assert_eq!(child_maps.len(), 4);
    assert_eq!(parent_maps.len(), 4);
    for i in 0..4 {
        let want = MapAction { vaddr: 0x1000_0000 + i * PAGE, paddr: frames[i], flags: MappingFlags::URX };
        assert_eq!(child_maps[i], want);
        assert_eq!(parent_maps[i], want);
    }
    assert_eq!(cpcb.memset.areas.len(), 1);
    assert_eq!(cpcb.memset.areas[0].mtrackers, ppcb.memset.areas[0].mtrackers);
}

#[test]
fn stack_frames_merge() {
    let (_t, mut pcb) = UserTask::new(1, None, dir("/"));
    pcb.frame_alloc(0x7fff_0000, MemType::Stack, 1, Some(vec![0x9000_0000])).unwrap();
    pcb.frame_alloc(0x7ffe_0000, MemType::Stack, 2, Some(vec![0x9000_1000, 0x9000_2000])).unwrap();
    assert_eq!(pcb.memset.areas.len(), 1);
    assert_eq!(pcb.memset.areas[0].start, STACK_START);
    assert_eq!(pcb.memset.areas[0].len, STACK_LEN);
    assert_eq!(pcb.memset.areas[0].mtrackers.len(), 3);
    assert!(pcb.frame_alloc(0x1000, MemType::CodeSection, 1, None).is_none());
    let (_, maps) = pcb.frame_alloc(0, MemType::CodeSection, 1, Some(vec![0x9000_3000])).unwrap();
    assert!(maps.is_empty());
    assert_eq!(pcb.memset.areas.len(), 2);
    assert_eq!(pcb.memset.areas[1].mtrackers[0].vaddr, 0);
}

#[test]
fn last_free_addr_skips_stack() {
    let (_t, mut pcb) = UserTask::new(1, None, dir("/"));
    pcb.frame_alloc(0x1000, MemType::CodeSection, 2, Some(vec![0xa000, 0xb000])).unwrap();
    pcb.frame_alloc(0x7fff_0000, MemType::Stack, 1, Some(vec![0xc000])).unwrap();
    assert_eq!(pcb.get_last_free_addr(), 0x3000);
}

#[test]
fn sbrk_pages_cover_new_break() {
    let (_t, mut pcb) = UserTask::new(1, None, dir("/"));
    pcb.heap = 0x1800;
    assert_eq!(pcb.sbrk_pages(0x4001), vec![0x2000, 0x3000, 0x4000]);
    assert_eq!(pcb.sbrk_pages(0x1000), Vec::<usize>::new());
}

#[test]
fn thread_clone_and_exit_codes() {
    let (mut main, mut pcb) = UserTask::new(1, None, dir("/"));
    main.tcb.cx.pc = 0x400;
    main.tcb.sigmask = 3;
    let mut th = main.thread_clone(&mut pcb, 9);
    assert_eq!(th.process_id, 1);
    assert_eq!(th.tcb.cx.pc, 0x400);
    assert_eq!(th.tcb.sigmask, 3);
    assert_eq!(th.tcb.signal, 0);
    assert_eq!(pcb.threads, vec![1, 9]);
    assert_eq!(pcb.live_threads, 2);
    pcb.children.push(9);
    let fx = th.thread_exit(&mut pcb, true, 3);
    assert!(fx.release);
    assert_eq!(fx.signal_parent, None);
    assert_eq!(th.tcb.thread_exit_code, Some(3));
    assert_eq!(pcb.exit_code, None);
    assert!(!pcb.children.contains(&9));
    assert_eq!(pcb.live_threads, 1);
    let fx = main.thread_exit(&mut pcb, false, 4);
    assert!(!fx.release);
    assert_eq!(pcb.exit_code, Some(4));
    assert_eq!(main.tcb.thread_exit_code, Some(4));
}

#[test]
fn exit_wakes_clear_tid_waiter() {
    let (mut t, mut pcb) = UserTask::new(1, None, dir("/"));
    t.tcb.clear_child_tid = 0x5000;
    pcb.futex_table.futex_wait(0x5000, 7);
    pcb.futex_table.futex_wait(0x5000, 8);
    let fx = t.exit(&mut pcb, false, 0);
    assert_eq!(fx.clear_tid, Some(0x5000));
    assert_eq!(fx.woken, vec![7]);
    assert_eq!(fx.signal_parent, None);
    assert_eq!(t.tcb.thread_exit_code, None);
    assert_eq!(pcb.exit_code, Some(0));
}

#[test]
fn exit_signal_is_used_when_set() {
    let (mut t, mut pcb) = UserTask::new(1, Some(0), dir("/"));
    t.tcb.exit_signal = 10;
    let fx = t.exit_with_signal(&mut pcb, true, 9);
    assert_eq!(fx.signal_parent, Some(10));
    assert_eq!(pcb.exit_code, Some(137));
}

#[test]
fn stack_pushes_align() {
    let (mut t, _pcb) = UserTask::new(1, None, dir("/"));
    t.tcb.cx.sp = 0x1000;
    assert_eq!(t.push(5), 0xff8);
    assert_eq!(t.push_arr(3), 0xff0);
    assert_eq!(t.push_arr(8), 0xfe0);
    assert_eq!(t.push_str("hello"), 0xfd8);
    assert_eq!(t.tcb.cx.sp, 0xfd8);
    assert_eq!(t.map(0x2000, 0x3000, MappingFlags::URX), MapAction { vaddr: 0x3000, paddr: 0x2000, flags: MappingFlags::URX });
}

#[test]
fn cow_write_fault_separates_one_page() {
    let (parent, mut ppcb) = UserTask::new(1, None, dir("/"));
    let frames = vec![0x8000_0000, 0x8000_1000, 0x8000_2000, 0x8000_3000];
    ppcb.frame_alloc(0x1000_0000, MemType::Mmap, 4, Some(frames.clone())).unwrap();
    let (_child, mut cpcb, _cm, _pm) = parent.cow_fork(&mut ppcb, 2);
    let m = cpcb.memset.remap_page(0x1000_2000, 0x8800_0000);
    assert_eq!(m, Some(MapAction { vaddr: 0x1000_2000, paddr: 0x8800_0000, flags: MappingFlags::URWX }));
    let c = &cpcb.memset.areas[0].mtrackers;
    let p = &ppcb.memset.areas[0].mtrackers;
    assert_ne!(c[2].frame, p[2].frame);
    for i in [0usize, 1, 3] {
        assert_eq!(c[i].frame, p[i].frame);
    }
    assert_eq!(cpcb.memset.remap_page(0x5000_0000, 1), None);
}

#[test]
fn sbrk_moves_break_and_maps_pages() {
    let (_t, mut pcb) = UserTask::new(1, None, dir("/"));
    pcb.heap = 0x1800;
    let pages = pcb.sbrk_pages(0x4001);
    assert_eq!(pages.len(), 3);
    let (brk, maps) = pcb.sbrk(0x4001, &vec![Some(0xa000), None, Some(0xb000)]);
    assert_eq!(brk, 0x4001);
    assert_eq!(pcb.heap, 0x4001);
    assert_eq!(
        maps,
        vec![
            MapAction { vaddr: 0x2000, paddr: 0xa000, flags: MappingFlags::URWX },
            MapAction { vaddr: 0x4000, paddr: 0xb000, flags: MappingFlags::URWX },
        ]
    );
    assert_eq!(pcb.memset.areas.len(), 2);
    assert_eq!(pcb.memset.areas[1].start, 0x4000);
    assert_eq!(pcb.memset.areas[1].mtype, MemType::CodeSection);
    let (brk, maps) = pcb.sbrk(0x100, &vec![]);
    assert_eq!(brk, 0x100);
    assert!(maps.is_empty());
}

#[test]
fn last_free_addr_is_page_aligned() {
    let (_t, mut pcb) = UserTask::new(1, None, dir("/"));
    assert_eq!(pcb.get_last_free_addr(), 0);
    pcb.frame_alloc(0x1000, MemType::CodeSection, 1, Some(vec![0xa000])).unwrap();
    pcb.shms.push(SharedMapping { start: 0x5000, size: 5, frames: vec![0xb000] });
    assert_eq!(pcb.get_last_free_addr(), 0x6000);
}

#[test]
fn new_task_is_blank() {
    let (t, pcb) = UserTask::new(4, Some(1), dir("/"));
    assert_eq!(t.process_id, 4);
    assert_eq!(t.tcb.sigmask, 0);
    assert_eq!(t.tcb.set_child_tid, 0);
    assert!(pcb.shms.is_empty());
    assert_eq!(pcb.rlimits[7], 256);
    assert_eq!(pcb.threads, vec![4]);
}

#[test]
fn thread_exit_wakes_only_earliest_waiter() {
    let (mut main, mut pcb) = UserTask::new(1, None, dir("/"));
    let mut th = main.thread_clone(&mut pcb, 2);
    th.tcb.clear_child_tid = 0x7000;
    pcb.futex_table.futex_wait(0x7000, 5);
    pcb.futex_table.futex_wait(0x8000, 6);
    pcb.futex_table.futex_wait(0x7000, 7);
    let fx = th.thread_exit(&mut pcb, true, 0);
    assert_eq!(fx.clear_tid, Some(0x7000));
    assert_eq!(fx.woken, vec![5]);
    assert_eq!(pcb.futex_table.futex_wake(0x7000, 10), vec![7]);
    assert_eq!(pcb.futex_table.futex_wake(0x8000, 10), vec![6]);
    main.tcb.clear_child_tid = 0;
    let fx = main.exit(&mut pcb, false, 1);
    assert!(fx.woken.is_empty());
}

#[test]
fn forked_child_tcb_is_fresh() {
    let (mut parent, mut ppcb) = UserTask::new(1, None, dir("/"));
    parent.tcb.exit_signal = 17;
    parent.tcb.clear_child_tid = 0x40;
    parent.tcb.sigmask = 9;
    let (child, _cpcb, _c, _p) = parent.cow_fork(&mut ppcb, 2);
    assert_eq!(child.tcb.exit_signal, 0);
    assert_eq!(child.tcb.clear_child_tid, 0);
    assert_eq!(child.tcb.set_child_tid, 0);
    assert_eq!(child.tcb.sigmask, 0);
}

#[test]
fn load_plan_replaces_address_space() {
    let (_t, mut pcb) = UserTask::new(1, None, dir("/"));
    pcb.frame_alloc(0x9000_0000, MemType::Mmap, 1, Some(vec![0x1000])).unwrap();
    let plan = LoadPlan {
        path: "/bin/app".to_string(),
        base: 0,
        entry_point: 0x10100,
        heap_bottom: 0x14000,
        ph_addr: 0x10040,
        ph_count: 2,
        ph_entry_size: 56,
        segments: vec![
            SegmentLoad { page_addr: 0x10000, page_count: 2, page_offset: 0, file_offset: 0, file_size: 0x1200 },
            SegmentLoad { page_addr: 0x13000, page_count: 1, page_offset: 0x10, file_offset: 0x2000, file_size: 0x20 },
        ],
    };
    let maps = pcb.apply_load_plan(&plan, &vec![vec![0xa000, 0xb000], vec![0xc000]]);
    assert_eq!(maps.len(), 3);
    assert_eq!(maps[1], MapAction { vaddr: 0x11000, paddr: 0xb000, flags: MappingFlags::URWX });
    assert_eq!(maps[2], MapAction { vaddr: 0x13000, paddr: 0xc000, flags: MappingFlags::URWX });
    assert_eq!(pcb.memset.areas.len(), 2);
    assert!(pcb.memset.areas.iter().all(|a| a.mtype == MemType::CodeSection));
    assert_eq!(pcb.memset.areas[0].len, 2 * PAGE);
    assert_eq!(pcb.heap, 0x14000);
    assert_eq!(pcb.entry, 0x10100);
}
