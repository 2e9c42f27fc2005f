use task_kernel::elf::{
    exec_step, find_interp, fits, get_ph_addr, heap_bottom, plan_segments, ElfImage, ExecStep, ProgramHeader, SegmentLoad,
    SegmentType, USER_DYN_ADDR,
};
use task_kernel::errno::Errno;
use task_kernel::syscall::{syscall, Dispatch, Handler, AT_FDCWD_WORD};

fn ph(t: SegmentType, offset: u64, vaddr: u64, file_size: u64, mem_size: u64) -> ProgramHeader {
    ProgramHeader { ph_type: t, offset, virtual_addr: vaddr, file_size, mem_size }
}

fn image(headers: Vec<ProgramHeader>, dynamic: bool) -> ElfImage {
    ElfImage { entry_point: 0x1100, ph_offset: 64, ph_count: headers.len() as u16, ph_entry_size: 56, headers, dynamic }
}

#[test]
fn script_falls_back_to_shell() {
    let args = vec!["run.sh".to_string()];
    match exec_step("/", "run.sh", &args, &None) {
        ExecStep::Reenter { path, args } => {
            assert_eq!(path, "busybox");
            assert_eq!(args, vec!["busybox", "sh", "run.sh"]);
        }
        _ => panic!("expected a re-entry"),
    }
}

#[test]
fn interp_goes_through_libc() {
    let img = image(vec![ph(SegmentType::Interp, 0x200, 0, 20, 20), ph(SegmentType::Load, 0, 0, 0x300, 0x300)], false);
    let args = vec!["app".to_string(), "-v".to_string()];
    match exec_step("/", "app", &args, &Some(img)) {
        ExecStep::Reenter { path, args } => {
            assert_eq!(path, "libc.so");
            assert_eq!(args, vec!["libc.so", "app", "-v"]);
        }
        _ => panic!("expected a re-entry"),
    }
}

#[test]
fn static_image_is_loaded() {
    let img = image(
        vec![
            ph(SegmentType::Phdr, 64, 0x10040, 0x70, 0x70),
            ph(SegmentType::Load, 0, 0x10000, 0x1234, 0x1234),
            ph(SegmentType::Load, 0x2000, 0x12010, 0x100, 0x3000),
        ],
        false,
    );
    match exec_step("/bin", "app", &vec!["app".to_string()], &Some(img)) {
        ExecStep::Load(plan) => {
            assert_eq!(plan.path, "/bin/app");
            assert_eq!(plan.base, 0);
            assert_eq!(plan.entry_point, 0x1100);
            assert_eq!(plan.heap_bottom, 0x16000);
            assert_eq!(plan.ph_addr, 0x10040);
            assert_eq!(plan.segments.len(), 2);
            assert_eq!(
                plan.segments[1],
                SegmentLoad { page_addr: 0x12000, page_count: 4, page_offset: 0x10, file_offset: 0x2000, file_size: 0x100 }
            );
        }
        _ => panic!("expected a load"),
    }
}

#[test]
fn dynamic_image_is_relocated() {
    let img = image(vec![ph(SegmentType::Load, 0, 0, 0x800, 0x800)], true);
    match exec_step("/", "/lib/ld", &vec![], &Some(img)) {
        ExecStep::Load(plan) => {
            assert_eq!(plan.base, USER_DYN_ADDR);
            assert_eq!(plan.path, "/lib/ld");
            assert_eq!(plan.ph_addr, 64);
            assert_eq!(plan.segments[0].page_addr, USER_DYN_ADDR);
            assert_eq!(plan.segments[0].page_count, 1);
        }
        _ => panic!("expected a load"),
    }
}

#[test]
fn ph_addr_preference() {
    let hs = vec![ph(SegmentType::Load, 0, 0x400000, 10, 10), ph(SegmentType::Phdr, 64, 0x400040, 10, 10)];
    assert_eq!(get_ph_addr(&hs, 64), Ok(0x400040));
    let hs = vec![ph(SegmentType::Load, 0x1000, 0x1000, 10, 10), ph(SegmentType::Load, 0, 0x400000, 10, 10)];
    assert_eq!(get_ph_addr(&hs, 64), Ok(0x400040));
    let hs = vec![ph(SegmentType::Load, 0x1000, 0x1000, 10, 10)];
    assert_eq!(get_ph_addr(&hs, 64), Err(Errno::EBADF));
}

#[test]
fn heap_and_segments() {
    let hs = vec![ph(SegmentType::Load, 0, 0x1000, 0x10, 0x1001), ph(SegmentType::Other, 0, 0x9000, 0, 0)];
    assert_eq!(heap_bottom(&hs), 0x9000);
    assert_eq!(heap_bottom(&vec![]), 0);
    let segs = plan_segments(&hs, 0);
    assert_eq!(segs, vec![SegmentLoad { page_addr: 0x1000, page_count: 2, page_offset: 0, file_offset: 0, file_size: 0x10 }]);
}

#[test]
fn unknown_syscall_is_eperm() {
    let d = syscall(99999, [0; 6], true);
    assert!(matches!(d, Dispatch::Unsupported));
    assert_eq!(d.immediate(), Some(Err(Errno::EPERM)));
    assert!(d.warns());
}

#[test]
fn syscall_routing_by_number() {
    let args = [1, 2, 3, 4, 5, 6];
    match syscall(0, args, true) {
        Dispatch::Call(h, a) => {
            assert_eq!(h, Handler::Read);
            assert!(h.is_async());
            assert_eq!(a, args);
        }
        _ => panic!("read is routed"),
    }
    match syscall(63, args, true) {
        Dispatch::Call(h, _) => {
            assert_eq!(h, Handler::Uname);
            assert!(!h.is_async());
        }
        _ => panic!("uname is routed"),
    }
    let d = syscall(74, args, true);
    assert!(matches!(d, Dispatch::Done));
    assert_eq!(d.immediate(), Some(Ok(0)));
    assert!(!d.warns());
}

#[test]
fn syscall_argument_shapes() {
    let args = [1, 2, 3, 4, 5, 6];
    match syscall(56, args, true) {
        Dispatch::Call(h, a) => {
            assert_eq!(h, Handler::Clone);
            assert_eq!(a, [1, 2, 3, 5, 4, 6]);
        }
        _ => panic!("clone is routed"),
    }
    match syscall(82, args, true) {
        Dispatch::Call(h, a) => {
            assert_eq!(h, Handler::Renameat2);
            assert_eq!(a, [AT_FDCWD_WORD, 1, AT_FDCWD_WORD, 2, 2, 0]);
        }
        _ => panic!("rename is routed"),
    }
    match syscall(22, args, true) {
        Dispatch::Call(h, a) => {
            assert_eq!(h, Handler::Pipe2);
            assert_eq!(a, [1, 0, 0, 0, 0, 0]);
        }
        _ => panic!("pipe is routed"),
    }
}

#[test]
fn interp_image_needs_no_address_bound() {
    let img = image(vec![ph(SegmentType::Interp, 0x200, 0, 20, 20), ph(SegmentType::Load, 0, u64::MAX - 10, 0x300, 0x300)], false);
    assert!(find_interp(&img.headers));
    assert!(!fits(&img));
    assert!(matches!(exec_step("/", "app", &vec![], &Some(img)), ExecStep::Reenter { .. }));
    let ok = image(vec![ph(SegmentType::Load, 0, 0x1000, 0x10, 0x10)], false);
    assert!(fits(&ok));
    assert!(!find_interp(&ok.headers));
}
