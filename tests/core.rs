use task_kernel::errno::Errno;
use task_kernel::futex::FutexTable;
use task_kernel::lazy_init::LazyInit;
use task_kernel::path::join;

#[test]
fn lazy_init_get_after_init() {
    let mut cell: LazyInit<u32> = LazyInit::new();
    assert!(!cell.is_init());
    assert!(cell.try_get().is_none());
    cell.init_by(42);
    assert!(cell.is_init());
    assert_eq!(cell.try_get(), Some(&42));
    assert!(std::ptr::eq(cell.try_get().unwrap(), cell.get()));
    *cell.get_mut() = 7;
    assert_eq!(*cell.get(), 7);
    let d: LazyInit<u8> = LazyInit::default();
    assert!(!d.is_init());
}

#[test]
fn futex_wake_in_order() {
    let mut t = FutexTable::new();
    t.futex_wait(0x100, 1);
    t.futex_wait(0x200, 2);
    t.futex_wait(0x100, 3);
    t.futex_wait(0x100, 4);
    assert_eq!(t.futex_wake(0x100, 2), vec![1, 3]);
    assert_eq!(t.futex_wake(0x100, 5), vec![4]);
    assert_eq!(t.futex_wake(0x100, 5), Vec::<usize>::new());
    assert_eq!(t.futex_wake(0x200, 0), Vec::<usize>::new());
    assert_eq!(t.futex_wake(0x200, 1), vec![2]);
}

#[test]
fn path_join() {
    assert_eq!(join("/", "home"), "/home");
    assert_eq!(join("/home", "greet"), "/home/greet");
    assert_eq!(join("/home", "/etc/x"), "/etc/x");
}

#[test]
fn errno_codes() {
    assert_eq!(Errno::EPERM.code(), 1);
    assert_eq!(Errno::ENOENT.code(), 2);
    assert_eq!(Errno::EEXIST.code(), 17);
    assert_eq!(Errno::EWOULDBLOCK.code(), 11);
    assert_eq!(Errno::EBADF.code(), 9);
    assert_eq!(Errno::ENOMEM.code(), 12);
    assert_eq!(Errno::ENOTDIR.code(), 20);
    assert_eq!(Errno::EISDIR.code(), 21);
    assert_eq!(Errno::EINVAL.code(), 22);
    assert_eq!(Errno::ENOSYS.code(), 38);
    assert_eq!(Errno::ETIMEDOUT.code(), 110);
}
