use task_kernel::allocfs::AllocFS;
use task_kernel::blocking::{settle, Poll, WaitBlockingRead, WaitBlockingWrite};
use task_kernel::devfs::{DevDir, DevFS, DevNode};
use task_kernel::errno::Errno;
use task_kernel::vfs::{FileType, TimeSpec, MODE_DIR, MODE_FILE, MODE_LINK, UTIME_OMIT};

#[test]
fn hello_round_trip() {
    let mut fs = AllocFS::new();
    let root = fs.root_dir().inner;
    assert_eq!(fs.mkdir(root, "home"), Ok(()));
    let home = fs.lookup(root, "home").unwrap();
    assert_eq!(fs.create(home, "greet", FileType::File), Ok(()));
    let greet = fs.lookup(home, "greet").unwrap();
    assert_eq!(fs.writeat(greet, 0, b"hi\n"), Ok(3));
    let mut buf = vec![0u8; 8];
    assert_eq!(fs.readat(greet, 0, &mut buf), Ok(3));
    assert_eq!(&buf[0..3], b"hi\n");
}

#[test]
fn create_twice_is_eexist() {
    let mut fs = AllocFS::new();
    assert_eq!(fs.create(0, "a", FileType::File), Ok(()));
    assert_eq!(fs.create(0, "a", FileType::File), Err(Errno::EEXIST));
    assert_eq!(fs.create(0, "a", FileType::Directory), Err(Errno::EEXIST));
    assert_eq!(fs.mkdir(0, "d"), Ok(()));
    assert_eq!(fs.mkdir(0, "d"), Err(Errno::EEXIST));
    assert_eq!(fs.create(0, "d", FileType::File), Err(Errno::EEXIST));
    assert_eq!(fs.read_dir(0).unwrap().len(), 2);
}

#[test]
fn readat_past_end_is_zero() {
    let mut fs = AllocFS::new();
    fs.create(0, "f", FileType::File).unwrap();
    let f = fs.lookup(0, "f").unwrap();
    fs.writeat(f, 0, b"abcdef").unwrap();
    let mut buf = vec![7u8; 4];
    assert_eq!(fs.readat(f, 6, &mut buf), Ok(0));
    assert_eq!(fs.readat(f, 100, &mut buf), Ok(0));
    assert_eq!(buf, vec![7u8; 4]);
    assert_eq!(fs.readat(f, 4, &mut buf), Ok(2));
    assert_eq!(buf, vec![b'e', b'f', 7, 7]);
    assert_eq!(fs.readat(f, 1, &mut buf), Ok(4));
    assert_eq!(buf, b"bcde".to_vec());
}

#[test]
fn write_then_read_returns_bytes() {
    let mut fs = AllocFS::new();
    fs.create(0, "f", FileType::File).unwrap();
    let f = fs.lookup(0, "f").unwrap();
    fs.writeat(f, 0, b"0123456789").unwrap();
    assert_eq!(fs.writeat(f, 3, b"xyz"), Ok(3));
    let mut out = vec![0u8; 5];
    assert_eq!(fs.readat(f, 3, &mut out), Ok(5));
    assert_eq!(&out[0..3], b"xyz");
    assert_eq!(&out[3..5], b"67");
}

#[test]
fn write_past_end_pads_with_zeros() {
    let mut fs = AllocFS::new();
    fs.create(0, "f", FileType::File).unwrap();
    let f = fs.lookup(0, "f").unwrap();
    assert_eq!(fs.writeat(f, 3, b"ab"), Ok(2));
    let mut out = vec![9u8; 8];
    assert_eq!(fs.readat(f, 0, &mut out), Ok(5));
    assert_eq!(&out[0..5], &[0, 0, 0, b'a', b'b']);
    assert_eq!(fs.stat(f).unwrap().size, 5);
}

#[test]
fn truncate_drops_tail() {
    let mut fs = AllocFS::new();
    fs.create(0, "f", FileType::File).unwrap();
    let f = fs.lookup(0, "f").unwrap();
    fs.writeat(f, 0, b"abcdef").unwrap();
    assert_eq!(fs.truncate(f, 2), Ok(()));
    assert_eq!(fs.stat(f).unwrap().size, 2);
    assert_eq!(fs.truncate(f, 10), Ok(()));
    assert_eq!(fs.stat(f).unwrap().size, 2);
    assert_eq!(fs.truncate(0, 1), Err(Errno::EISDIR));
}

#[test]
fn symlink_reads_target() {
    let mut fs = AllocFS::new();
    fs.create(0, "target", FileType::File).unwrap();
    let t = fs.lookup(0, "target").unwrap();
    fs.writeat(t, 0, b"payload").unwrap();
    assert_eq!(fs.link(0, "alias", t), Ok(()));
    let a = fs.lookup(0, "alias").unwrap();
    assert_eq!(fs.file_type(a), FileType::Link);
    let mut x = vec![0u8; 16];
    let mut y = vec![0u8; 16];
    assert_eq!(fs.readat(a, 0, &mut x), fs.readat(t, 0, &mut y));
    assert_eq!(x, y);
    assert_eq!(fs.writeat(a, 0, b"P"), Ok(1));
    fs.readat(t, 0, &mut y).unwrap();
    assert_eq!(&y[0..7], b"Payload");
    let l = fs.link_handle(a).unwrap();
    assert_eq!(l.link_file, t);
    assert_eq!(fs.link(0, "alias", t), Err(Errno::EEXIST));
}

#[test]
fn rmdir_and_remove_are_asymmetric() {
    let mut fs = AllocFS::new();
    fs.mkdir(0, "d").unwrap();
    fs.create(0, "f", FileType::File).unwrap();
    assert_eq!(fs.remove(0, "d"), Err(Errno::ENOENT));
    assert_eq!(fs.rmdir(0, "f"), Err(Errno::ENOENT));
    assert_eq!(fs.unlink(0, "f"), Ok(()));
    assert_eq!(fs.lookup(0, "f"), Err(Errno::ENOENT));
    assert_eq!(fs.rmdir(0, "d"), Ok(()));
    assert_eq!(fs.rmdir(0, "d"), Err(Errno::ENOENT));
    assert_eq!(fs.read_dir(0).unwrap().len(), 0);
}

#[test]
fn wrong_kind_errors() {
    let mut fs = AllocFS::new();
    fs.create(0, "f", FileType::File).unwrap();
    let f = fs.lookup(0, "f").unwrap();
    assert_eq!(fs.mkdir(f, "x"), Err(Errno::ENOTDIR));
    assert_eq!(fs.lookup(f, "x"), Err(Errno::ENOTDIR));
    assert!(matches!(fs.read_dir(f), Err(Errno::ENOTDIR)));
    let mut buf = vec![0u8; 4];
    assert_eq!(fs.readat(0, 0, &mut buf), Err(Errno::EISDIR));
    assert_eq!(fs.writeat(0, 0, b"x"), Err(Errno::EISDIR));
    assert_eq!(fs.utimes(0, &[TimeSpec::default(), TimeSpec::default()]), Err(Errno::ENOSYS));
}

#[test]
fn read_dir_lists_children_in_order() {
    let mut fs = AllocFS::new();
    fs.create(0, "b", FileType::File).unwrap();
    fs.mkdir(0, "a").unwrap();
    let b = fs.lookup(0, "b").unwrap();
    fs.writeat(b, 0, b"1234").unwrap();
    fs.link(0, "c", b).unwrap();
    let es = fs.read_dir(0).unwrap();
    assert_eq!(es.len(), 3);
    assert_eq!(es[0].filename, "b");
    assert_eq!(es[0].len, 4);
    assert_eq!(es[0].file_type, FileType::File);
    assert_eq!(es[1].filename, "a");
    assert_eq!(es[1].file_type, FileType::Directory);
    assert_eq!(es[2].filename, "c");
    assert_eq!(es[2].file_type, FileType::Link);
}

#[test]
fn stat_and_utimes() {
    let mut fs = AllocFS::new();
    fs.create(0, "f", FileType::File).unwrap();
    let f = fs.lookup(0, "f").unwrap();
    fs.link(0, "l", f).unwrap();
    let l = fs.lookup(0, "l").unwrap();
    let d = fs.stat(0).unwrap();
    assert_eq!(d.mode, MODE_DIR);
    assert_eq!(d.blksize, 512);
    assert_eq!(d.ino, 1);
    let s = fs.stat(f).unwrap();
    assert_eq!(s.mode, MODE_FILE);
    assert_eq!(s.ino, 2);
    assert_eq!(fs.stat(l).unwrap().mode, MODE_LINK);
    let t1 = TimeSpec { sec: 10, nsec: 5 };
    let t2 = TimeSpec { sec: 20, nsec: 6 };
    assert_eq!(fs.utimes(f, &[t1, t2]), Ok(()));
    let s = fs.stat(f).unwrap();
    assert_eq!(s.atime, t1);
    assert_eq!(s.mtime, t2);
    let omit = TimeSpec { sec: 99, nsec: UTIME_OMIT };
    assert_eq!(fs.utimes(f, &[omit, TimeSpec { sec: 30, nsec: 0 }]), Ok(()));
    let s = fs.stat(f).unwrap();
    assert_eq!(s.atime, t1);
    assert_eq!(s.mtime, TimeSpec { sec: 30, nsec: 0 });
}

#[test]
fn fs_names() {
    let fs = AllocFS::new();
    assert_eq!(fs.name(), "allocfs");
    assert_eq!(fs.len(), 1);
    assert_eq!(DevFS::new().name(), "devfs");
}

#[test]
fn blocking_settles() {
    assert_eq!(settle(Ok(4)), Poll::Ready(Ok(4)));
    assert_eq!(settle(Err(Errno::EWOULDBLOCK)), Poll::Pending);
    assert_eq!(settle(Err(Errno::EBADF)), Poll::Ready(Err(Errno::EBADF)));
    let mut fs = AllocFS::new();
    fs.create(0, "f", FileType::File).unwrap();
    let f = fs.lookup(0, "f").unwrap();
    let w = WaitBlockingWrite { inode: f, offset: 0 };
    assert_eq!(w.poll(&mut fs, b"abc"), Poll::Ready(Ok(3)));
    let r = WaitBlockingRead { inode: f, offset: 1 };
    let mut buf = vec![0u8; 4];
    assert_eq!(r.poll(&fs, &mut buf), Poll::Ready(Ok(2)));
    assert_eq!(&buf[0..2], b"bc");
    let d = WaitBlockingRead { inode: 0, offset: 0 };
    assert_eq!(d.poll(&fs, &mut buf), Poll::Ready(Err(Errno::EISDIR)));
}

#[test]
fn devfs_registry() {
    let dev = DevFS::new();
    let root = &dev.root_dir;
    for n in ["stdin", "stdout", "stderr", "ttyv0", "null", "zero", "shm", "rtc", "urandom", "cpu_dma_latency"] {
        assert!(root.lookup(n).is_ok(), "{}", n);
    }
    assert_eq!(root.lookup("null"), Ok(DevNode::Null));
    assert_eq!(root.lookup("stdout"), Ok(DevNode::Tty));
    assert_eq!(root.lookup("nope"), Err(Errno::ENOENT));
    let names: Vec<String> = root.read_dir().into_iter().map(|e| e.filename).collect();
    assert_eq!(
        names,
        vec!["cpu_dma_latency", "null", "rtc", "shm", "stderr", "stdin", "stdout", "ttyv0", "urandom", "zero"]
    );
    assert!(root.read_dir().iter().all(|e| e.file_type == FileType::Device && e.len == 0));
    let st = root.stat();
    assert_eq!(st.ino, 1);
    assert_eq!(st.mode, MODE_DIR);
    assert_eq!(st.blksize, 512);
    assert_eq!(DevDir::new().read_dir().len(), 10);
    let mut d = DevDir::new();
    d.add("sda", DevNode::Sdx(0));
    d.add("null", DevNode::Zero);
    let fs2 = DevFS::new_with_dir(d);
    assert_eq!(fs2.root_dir.lookup("sda"), Ok(DevNode::Sdx(0)));
    assert_eq!(fs2.root_dir.lookup("null"), Ok(DevNode::Zero));
    assert_eq!(fs2.root_dir.read_dir().len(), 11);
}

#[test]
fn device_reads_and_writes() {
    let mut buf = vec![5u8; 4];
    assert_eq!(DevNode::Null.readat(0, &mut buf), Ok(0));
    assert_eq!(buf, vec![5u8; 4]);
    assert_eq!(DevNode::Zero.readat(0, &mut buf), Ok(4));
    assert_eq!(buf, vec![0u8; 4]);
    assert_eq!(DevNode::Null.writeat(0, b"abc"), Ok(3));
    assert_eq!(DevNode::Tty.readat(0, &mut buf), Err(Errno::ENOSYS));
}
