use vstd::prelude::*;
use vstd::string::StringExecFns;
use crate::errno::Errno;
use crate::text::{
    bytes_lt, lemma_bytes_lt_irreflexive, lemma_bytes_lt_total, lemma_bytes_lt_transitive, str_eq,
    str_lt,
};
use vstd::utf8::encode_utf8;
use vstd::string::StringSliceAdditionalSpecFns;
use crate::vfs::{DirEntry, FileType, Stat, MODE_DIR, time_zero, zero_time};

verus! {

broadcast use vstd::utf8::encode_utf8_decode_utf8;

/// A device node.
#[derive(Clone, Copy, Debug, PartialEq, Eq, Structural)]
pub enum DevNode {
    Tty,
    Null,
    Zero,
    Shm,
    Rtc,
    Urandom,
    CpuDmaLatency,
    /// Block device number `n`.
    Sdx(usize),
}

impl DevNode {
    /// Reads from the device into `buf`: `null` is always at its end, `zero`
    /// fills the whole buffer with zeros. The other devices are served by
    /// their drivers and report `ENOSYS` here.
    pub fn readat(&self, offset: usize, buf: &mut Vec<u8>) -> (r: Result<usize, Errno>)
        ensures
            *self == DevNode::Null ==> r == Ok::<usize, Errno>(0) && final(buf)@ == old(buf)@,
            *self == DevNode::Zero ==> r == Ok::<usize, Errno>(old(buf)@.len() as usize)
                && final(buf)@ == Seq::new(old(buf)@.len(), |i: int| 0u8),
            *self != DevNode::Null && *self != DevNode::Zero ==> r == Err::<usize, Errno>(
                Errno::ENOSYS,
            ) && final(buf)@ == old(buf)@,
    {
        match self {
            DevNode::Null => Ok(0),
            DevNode::Zero => {
                let mut i: usize = 0;
                while i < buf.len()
                    invariant
                        i <= buf@.len(),
                        buf@.len() == old(buf)@.len(),
                        forall|k: int| 0 <= k < i ==> buf@[k] == 0u8,
                    decreases buf@.len() - i,
                {
                    buf.set(i, 0);
                    i = i + 1;
                }
                assert(buf@ =~= Seq::new(old(buf)@.len(), |i: int| 0u8));
                Ok(buf.len())
            },
            _ => Err(Errno::ENOSYS),
        }
    }

    /// Writes `buf` to the device: `null` and `zero` take every byte and keep
    /// none. The other devices are served by their drivers.
    pub fn writeat(&self, offset: usize, buf: &[u8]) -> (r: Result<usize, Errno>)
        ensures
            *self == DevNode::Null || *self == DevNode::Zero ==> r == Ok::<usize, Errno>(
                buf@.len() as usize,
            ),
            *self != DevNode::Null && *self != DevNode::Zero ==> r == Err::<usize, Errno>(
                Errno::ENOSYS,
            ),
    {
        match self {
            DevNode::Null | DevNode::Zero => Ok(buf.len()),
            _ => Err(Errno::ENOSYS),
        }
    }
}

/// A named device.
pub struct DevEntry {
    pub name: String,
    pub node: DevNode,
}

/// Whether device `name` is registered, and as `node`.
pub open spec fn maps_to(es: Seq<DevEntry>, name: Seq<char>, node: DevNode) -> bool {
    exists|i: int| 0 <= i < es.len() && #[trigger] es[i].name@ == name && es[i].node == node
}

pub open spec fn has_name(es: Seq<DevEntry>, name: Seq<char>) -> bool {
    exists|i: int| 0 <= i < es.len() && #[trigger] es[i].name@ == name
}

/// The bytes a device name sorts by.
pub open spec fn key(e: DevEntry) -> Seq<u8> {
    encode_utf8(e.name@)
}

/// Devices are kept in the byte order of their names.
pub open spec fn sorted(es: Seq<DevEntry>) -> bool {
    forall|i: int, j: int| 0 <= i < j < es.len() ==> bytes_lt(#[trigger] key(es[i]), #[trigger] key(es[j]))
}

/// Sorted names are distinct.
pub proof fn lemma_sorted_distinct(es: Seq<DevEntry>)
    requires
        sorted(es),
    ensures
        names_distinct(es),
{
    assert forall|i: int, j: int|
        0 <= i < es.len() && 0 <= j < es.len() && i != j implies #[trigger] es[i].name@
            != #[trigger] es[j].name@ by {
        if es[i].name@ == es[j].name@ {
            lemma_bytes_lt_irreflexive(key(es[i]));
            if i < j {
                assert(bytes_lt(key(es[i]), key(es[j])));
            } else {
                assert(bytes_lt(key(es[j]), key(es[i])));
            }
        }
    }
}

/// No name is registered twice.
pub open spec fn names_distinct(es: Seq<DevEntry>) -> bool {
    forall|i: int, j: int|
        0 <= i < es.len() && 0 <= j < es.len() && i != j ==> #[trigger] es[i].name@
            != #[trigger] es[j].name@
}

/// Whether `e` lists device `d`.
pub open spec fn lists_device(e: DirEntry, d: DevEntry) -> bool {
    e.filename@ == d.name@ && e.len == 0 && e.file_type == FileType::Device
}

/// The device directory: device names, each mapped to its node, kept in the
/// byte order of the names.
pub struct DevDir {
    entries: Vec<DevEntry>,
}

impl DevDir {
    pub closed spec fn entries(&self) -> Seq<DevEntry> {
        self.entries@
    }

    pub open spec fn wf(&self) -> bool {
        sorted(self.entries())
    }

    /// An empty directory.
    pub fn empty() -> (r: DevDir)
        ensures
            r.wf(),
            r.entries().len() == 0,
    {
        DevDir { entries: Vec::new() }
    }

    /// The standard devices: `stdin`, `stdout`, `stderr` and `ttyv0` (the
    /// terminal), `null`, `zero`, `shm`, `rtc`, `urandom` and
    /// `cpu_dma_latency`.
    pub fn new() -> (r: DevDir)
        ensures
            r.wf(),
            maps_to(r.entries(), "stdout"@, DevNode::Tty),
            maps_to(r.entries(), "stderr"@, DevNode::Tty),
            maps_to(r.entries(), "stdin"@, DevNode::Tty),
            maps_to(r.entries(), "ttyv0"@, DevNode::Tty),
            maps_to(r.entries(), "null"@, DevNode::Null),
            maps_to(r.entries(), "zero"@, DevNode::Zero),
            maps_to(r.entries(), "shm"@, DevNode::Shm),
            maps_to(r.entries(), "rtc"@, DevNode::Rtc),
            maps_to(r.entries(), "urandom"@, DevNode::Urandom),
            maps_to(r.entries(), "cpu_dma_latency"@, DevNode::CpuDmaLatency),
            r.entries().len() == 10,
    {
        proof {
            reveal_strlit("stdout");
            reveal_strlit("stderr");
            reveal_strlit("stdin");
            reveal_strlit("ttyv0");
            reveal_strlit("null");
            reveal_strlit("zero");
            reveal_strlit("shm");
            reveal_strlit("rtc");
            reveal_strlit("urandom");
            reveal_strlit("cpu_dma_latency");
            assert("stdout"@.len() == 6);
            assert("stderr"@.len() == 6);
            assert("stdin"@.len() == 5);
            assert("ttyv0"@.len() == 5);
            assert("null"@.len() == 4);
            assert("zero"@.len() == 4);
            assert("shm"@.len() == 3);
            assert("rtc"@.len() == 3);
            assert("urandom"@.len() == 7);
            assert("cpu_dma_latency"@.len() == 15);
            assert("stdout"@[3] != "stderr"@[3]);
            assert("stdin"@[0] != "ttyv0"@[0]);
            assert("null"@[0] != "zero"@[0]);
            assert("shm"@[0] != "rtc"@[0]);
        }
        let mut d = DevDir::empty();
        d.add("stdout", DevNode::Tty);
        d.add("stderr", DevNode::Tty);
        proof {
            assert("stdout"@ != "stderr"@);
        }
        d.add("stdin", DevNode::Tty);
        proof {
            assert("stdout"@ != "stdin"@);
            assert("stderr"@ != "stdin"@);
        }
        d.add("ttyv0", DevNode::Tty);
        proof {
            assert("stdout"@ != "ttyv0"@);
            assert("stderr"@ != "ttyv0"@);
            assert("stdin"@ != "ttyv0"@);
        }
        d.add("null", DevNode::Null);
        proof {
            assert("stdout"@ != "null"@);
            assert("stderr"@ != "null"@);
            assert("stdin"@ != "null"@);
            assert("ttyv0"@ != "null"@);
        }
        d.add("zero", DevNode::Zero);
        proof {
            assert("stdout"@ != "zero"@);
            assert("stderr"@ != "zero"@);
            assert("stdin"@ != "zero"@);
            assert("ttyv0"@ != "zero"@);
            assert("null"@ != "zero"@);
        }
        d.add("shm", DevNode::Shm);
        proof {
            assert("stdout"@ != "shm"@);
            assert("stderr"@ != "shm"@);
            assert("stdin"@ != "shm"@);
            assert("ttyv0"@ != "shm"@);
            assert("null"@ != "shm"@);
            assert("zero"@ != "shm"@);
        }
        d.add("rtc", DevNode::Rtc);
        proof {
            assert("stdout"@ != "rtc"@);
            assert("stderr"@ != "rtc"@);
            assert("stdin"@ != "rtc"@);
            assert("ttyv0"@ != "rtc"@);
            assert("null"@ != "rtc"@);
            assert("zero"@ != "rtc"@);
            assert("shm"@ != "rtc"@);
        }
        d.add("urandom", DevNode::Urandom);
        proof {
            assert("stdout"@ != "urandom"@);
            assert("stderr"@ != "urandom"@);
            assert("stdin"@ != "urandom"@);
            assert("ttyv0"@ != "urandom"@);
            assert("null"@ != "urandom"@);
            assert("zero"@ != "urandom"@);
            assert("shm"@ != "urandom"@);
            assert("rtc"@ != "urandom"@);
        }
        d.add("cpu_dma_latency", DevNode::CpuDmaLatency);
        proof {
            assert("stdout"@ != "cpu_dma_latency"@);
            assert("stderr"@ != "cpu_dma_latency"@);
            assert("stdin"@ != "cpu_dma_latency"@);
            assert("ttyv0"@ != "cpu_dma_latency"@);
            assert("null"@ != "cpu_dma_latency"@);
            assert("zero"@ != "cpu_dma_latency"@);
            assert("shm"@ != "cpu_dma_latency"@);
            assert("rtc"@ != "cpu_dma_latency"@);
            assert("urandom"@ != "cpu_dma_latency"@);
        }
        d
    }

    /// The position of device `name`, by binary search over the sorted names.
    fn find(&self, name: &str) -> (r: Option<usize>)
        requires
            self.wf(),
        ensures
            r is None <==> !has_name(self.entries(), name@),
            r matches Some(i) ==> i < self.entries().len() && self.entries()[i as int].name@ == name@,
    {
        let ghost es = self.entries@;
        let ghost nk = name.spec_bytes();
        let mut lo: usize = 0;
        let mut hi: usize = self.entries.len();
        while lo < hi
            invariant
                es == self.entries@,
                nk == name.spec_bytes(),
                sorted(es),
                lo <= hi <= es.len(),
                forall|k: int| 0 <= k < lo ==> bytes_lt(#[trigger] key(es[k]), nk),
                forall|k: int| hi <= k < es.len() ==> bytes_lt(nk, #[trigger] key(es[k])),
            decreases hi - lo,
        {
            let mid = lo + (hi - lo) / 2;
            if str_eq(self.entries[mid].name.as_str(), name) {
                return Some(mid);
            }
            proof {
                assert(key(es[mid as int]) != nk) by {
                    if key(es[mid as int]) == nk {
                        assert(vstd::utf8::decode_utf8(key(es[mid as int])) == es[mid as int].name@);
                        assert(vstd::utf8::decode_utf8(nk) == name@);
                    }
                }
                lemma_bytes_lt_total(key(es[mid as int]), nk);
            }
            if str_lt(self.entries[mid].name.as_str(), name) {
                proof {
                    assert forall|k: int| 0 <= k < mid + 1 implies bytes_lt(#[trigger] key(es[k]), nk) by {
                        if k < mid {
                            lemma_bytes_lt_transitive(key(es[k]), key(es[mid as int]), nk);
                        }
                    }
                }
                lo = mid + 1;
            } else {
                proof {
                    assert forall|k: int| mid <= k < es.len() implies bytes_lt(nk, #[trigger] key(es[k])) by {
                        if k > mid {
                            lemma_bytes_lt_transitive(nk, key(es[mid as int]), key(es[k]));
                        }
                    }
                }
                hi = mid;
            }
        }
        proof {
            assert forall|k: int| 0 <= k < es.len() implies #[trigger] es[k].name@ != name@ by {
                if es[k].name@ == name@ {
                    assert(key(es[k]) == nk);
                    lemma_bytes_lt_irreflexive(nk);
                }
            }
        }
        None
    }

    /// Registers `node` as `path`, in place of any device of that name.
    pub fn add(&mut self, path: &str, node: DevNode)
        requires
            old(self).wf(),
        ensures
            final(self).wf(),
            maps_to(final(self).entries(), path@, node),
            forall|n: Seq<char>, d: DevNode|
                #![trigger maps_to(final(self).entries(), n, d)]
                #![trigger maps_to(old(self).entries(), n, d)]
                n != path@ ==> (maps_to(final(self).entries(), n, d) <==> maps_to(
                    old(self).entries(),
                    n,
                    d,
                )),
            forall|n: Seq<char>|
                #![trigger has_name(final(self).entries(), n)]
                #![trigger has_name(old(self).entries(), n)]
                has_name(final(self).entries(), n) <==> (has_name(old(self).entries(), n) || n
                    == path@),
            has_name(old(self).entries(), path@) ==> final(self).entries().len() == old(
                self,
            ).entries().len(),
            !has_name(old(self).entries(), path@) ==> final(self).entries().len() == old(
                self,
            ).entries().len() + 1,
    {
        let e = DevEntry { name: path.to_owned(), node };
        let ghost old_es = self.entries@;
        let ghost pk = key(e);
        assert(pk == path.spec_bytes());
        let mut p: usize = 0;
        let mut go = true;
        while go && p < self.entries.len()
            invariant
                self.entries@ == old_es,
                pk == path.spec_bytes(),
                p <= old_es.len(),
                forall|k: int| 0 <= k < p ==> bytes_lt(#[trigger] key(old_es[k]), pk),
                !go ==> p < old_es.len() && !bytes_lt(key(old_es[p as int]), pk),
            decreases old_es.len() - p + (if go { 1int } else { 0int }),
        {
            if str_lt(self.entries[p].name.as_str(), path) {
                p = p + 1;
            } else {
                go = false;
            }
        }
        if p < self.entries.len() && str_eq(self.entries[p].name.as_str(), path) {
            self.entries.set(p, e);
            proof {
                assert(key(old_es[p as int]) == pk);
                assert forall|i: int, j: int| 0 <= i < j < self.entries@.len() implies bytes_lt(
                    #[trigger] key(self.entries@[i]),
                    #[trigger] key(self.entries@[j]),
                ) by {
                    assert(key(self.entries@[i]) == key(old_es[i]));
                    assert(key(self.entries@[j]) == key(old_es[j]));
                }
                lemma_sorted_distinct(old_es);
                assert(maps_to(self.entries@, path@, node)) by {
                    assert(self.entries@[p as int].name@ == path@);
                }
                assert(has_name(old_es, path@));
                assert forall|n: Seq<char>|
                    has_name(self.entries@, n) <==> (has_name(old_es, n) || n == path@) by {
                    if has_name(self.entries@, n) {
                        let k = choose|k: int| 0 <= k < self.entries@.len() && #[trigger] self.entries@[k].name@ == n;
                        assert(old_es[k].name@ == n);
                    }
                    if has_name(old_es, n) {
                        let k = choose|k: int| 0 <= k < old_es.len() && #[trigger] old_es[k].name@ == n;
                        assert(self.entries@[k].name@ == n);
                    }
                }
                assert forall|n: Seq<char>, d: DevNode|
                    n != path@ implies (maps_to(self.entries@, n, d) <==> maps_to(old_es, n, d)) by {
                    if maps_to(self.entries@, n, d) {
                        let k = choose|k: int| 0 <= k < self.entries@.len() && #[trigger] self.entries@[k].name@ == n && self.entries@[k].node == d;
                        assert(k != p);
                        assert(old_es[k].name@ == n);
                    }
                    if maps_to(old_es, n, d) {
                        let k = choose|k: int| 0 <= k < old_es.len() && #[trigger] old_es[k].name@ == n && old_es[k].node == d;
                        assert(k != p);
                        assert(self.entries@[k].name@ == n);
                    }
                }
            }
        } else {
            self.entries.insert(p, e);
            proof {
                let es = self.entries@;
                assert(es =~= old_es.insert(p as int, e));
                if p < old_es.len() {
                    assert(key(old_es[p as int]) != pk) by {
                        if key(old_es[p as int]) == pk {
                            assert(vstd::utf8::decode_utf8(key(old_es[p as int])) == old_es[p as int].name@);
                            assert(vstd::utf8::decode_utf8(pk) == path@);
                        }
                    }
                    lemma_bytes_lt_total(key(old_es[p as int]), pk);
                    assert(bytes_lt(pk, key(old_es[p as int])));
                    assert forall|m: int| p <= m < old_es.len() implies bytes_lt(pk, #[trigger] key(old_es[m])) by {
                        if m > p {
                            lemma_bytes_lt_transitive(pk, key(old_es[p as int]), key(old_es[m]));
                        }
                    }
                }
                assert forall|i: int, j: int| 0 <= i < j < es.len() implies bytes_lt(
                    #[trigger] key(es[i]),
                    #[trigger] key(es[j]),
                ) by {
                    if j < p {
                        assert(es[i] == old_es[i] && es[j] == old_es[j]);
                    } else if j == p {
                        assert(es[i] == old_es[i]);
                    } else if i == p {
                        assert(es[j] == old_es[j - 1]);
                    } else if i < p {
                        assert(es[i] == old_es[i] && es[j] == old_es[j - 1]);
                        lemma_bytes_lt_transitive(key(old_es[i]), pk, key(old_es[j - 1]));
                    } else {
                        assert(es[i] == old_es[i - 1] && es[j] == old_es[j - 1]);
                    }
                }
                assert(maps_to(es, path@, node)) by {
                    assert(es[p as int] == e);
                }
                assert(!has_name(old_es, path@)) by {
                    if has_name(old_es, path@) {
                        let k = choose|k: int| 0 <= k < old_es.len() && #[trigger] old_es[k].name@ == path@;
                        assert(key(old_es[k]) == pk);
                        lemma_bytes_lt_irreflexive(pk);
                        if k >= p {
                            assert(bytes_lt(pk, key(old_es[k])));
                        }
                    }
                }
                assert forall|n: Seq<char>|
                    has_name(es, n) <==> (has_name(old_es, n) || n == path@) by {
                    if has_name(es, n) {
                        let k = choose|k: int| 0 <= k < es.len() && #[trigger] es[k].name@ == n;
                        if k < p {
                            assert(old_es[k] == es[k]);
                        } else if k > p {
                            assert(old_es[k - 1] == es[k]);
                        }
                    }
                    if has_name(old_es, n) {
                        let k = choose|k: int| 0 <= k < old_es.len() && #[trigger] old_es[k].name@ == n;
                        if k < p {
                            assert(es[k] == old_es[k]);
                        } else {
                            assert(es[k + 1] == old_es[k]);
                        }
                    }
                    if n == path@ {
                        assert(es[p as int].name@ == n);
                    }
                }
                assert forall|n: Seq<char>, d: DevNode|
                    n != path@ implies (maps_to(es, n, d) <==> maps_to(old_es, n, d)) by {
                    if maps_to(es, n, d) {
                        let k = choose|k: int| 0 <= k < es.len() && #[trigger] es[k].name@ == n && es[k].node == d;
                        assert(k != p);
                        if k < p {
                            assert(old_es[k] == es[k]);
                        } else {
                            assert(old_es[k - 1] == es[k]);
                        }
                    }
                    if maps_to(old_es, n, d) {
                        let k = choose|k: int| 0 <= k < old_es.len() && #[trigger] old_es[k].name@ == n && old_es[k].node == d;
                        if k < p {
                            assert(es[k] == old_es[k]);
                        } else {
                            assert(es[k + 1] == old_es[k]);
                        }
                    }
                }
            }
        }
    }

    /// The device registered as `name`.
    pub fn lookup(&self, name: &str) -> (r: Result<DevNode, Errno>)
        requires
            self.wf(),
        ensures
            r matches Ok(d) ==> maps_to(self.entries(), name@, d),
            r is Err <==> !has_name(self.entries(), name@),
            r is Err ==> r == Err::<DevNode, Errno>(Errno::ENOENT),
    {
        match self.find(name) {
            Some(i) => Ok(self.entries[i].node),
            None => Err(Errno::ENOENT),
        }
    }

    /// One device entry per registered name, in name order.
    pub fn read_dir(&self) -> (r: Vec<DirEntry>)
        ensures
            r@.len() == self.entries().len(),
            forall|i: int| 0 <= i < r@.len() ==> lists_device(#[trigger] r@[i], self.entries()[i]),
    {
        let mut r: Vec<DirEntry> = Vec::new();
        let mut i: usize = 0;
        while i < self.entries.len()
            invariant
                i <= self.entries@.len(),
                r@.len() == i,
                forall|k: int| 0 <= k < i ==> lists_device(#[trigger] r@[k], self.entries@[k]),
            decreases self.entries@.len() - i,
        {
            let e = DirEntry { filename: self.entries[i].name.clone(), len: 0, file_type: FileType::Device };
            let ghost r0 = r@;
            r.push(e);
            assert(r@[i as int] == e);
            assert(e.filename@ == self.entries@[i as int].name@);
            assert forall|k: int| 0 <= k < i implies r@[k] == r0[k] by {}
            i = i + 1;
        }
        r
    }

    /// The directory's metadata.
    pub fn stat(&self) -> (r: Stat)
        ensures
            r == (Stat {
                dev: 0,
                ino: 1,
                mode: MODE_DIR,
                nlink: 1,
                uid: 0,
                gid: 0,
                rdev: 0,
                size: 0,
                blksize: 512,
                blocks: 0,
                atime: zero_time(),
                mtime: zero_time(),
                ctime: zero_time(),
            }),
    {
        let z = time_zero();
        Stat {
            dev: 0,
            ino: 1,
            mode: MODE_DIR,
            nlink: 1,
            uid: 0,
            gid: 0,
            rdev: 0,
            size: 0,
            blksize: 512,
            blocks: 0,
            atime: z,
            mtime: z,
            ctime: z,
        }
    }
}

/// The device filesystem mounted at `/dev`.
pub struct DevFS {
    pub root_dir: DevDir,
}

impl DevFS {
    /// A device filesystem with the standard devices.
    pub fn new() -> (r: DevFS)
        ensures
            r.root_dir.wf(),
            maps_to(r.root_dir.entries(), "null"@, DevNode::Null),
            maps_to(r.root_dir.entries(), "zero"@, DevNode::Zero),
            maps_to(r.root_dir.entries(), "stdout"@, DevNode::Tty),
    {
        DevFS { root_dir: DevDir::new() }
    }

    /// A device filesystem over `dev`.
    pub fn new_with_dir(dev: DevDir) -> (r: DevFS)
        ensures
            r.root_dir.entries() == dev.entries(),
    {
        DevFS { root_dir: dev }
    }

    pub fn name(&self) -> (r: &'static str)
        ensures
            r@ == "devfs"@,
    {
        "devfs"
    }
}

} // verus!
