use vstd::prelude::*;
use crate::errno::Errno;
use crate::text::str_eq;
use crate::vfs::{
    DirEntry, FileType, Stat, TimeSpec, MODE_DIR, MODE_FILE, MODE_LINK, UTIME_OMIT, time_zero,
    zero_time,
};

verus! {

/// A regular file: its name, its bytes and its ctime, atime and mtime.
pub struct FSFileInner {
    pub name: String,
    pub content: Vec<u8>,
    pub times: [TimeSpec; 3],
}

/// A directory: its name and the node numbers of its children, in order of creation.
pub struct FSDirInner {
    pub name: String,
    pub children: Vec<usize>,
}

/// A symbolic link: its name and the node it stands for.
pub struct FSLinkInner {
    pub name: String,
    pub link_file: usize,
}

/// One node of the tree.
pub enum FileContainer {
    File(FSFileInner),
    Dir(FSDirInner),
    Link(FSLinkInner),
}

/// The abstract value of a node.
pub enum NodeView {
    File { name: Seq<char>, content: Seq<u8>, times: Seq<TimeSpec> },
    Dir { name: Seq<char>, children: Seq<usize> },
    Link { name: Seq<char>, target: usize },
}

impl NodeView {
    pub open spec fn name(self) -> Seq<char> {
        match self {
            NodeView::File { name, .. } => name,
            NodeView::Dir { name, .. } => name,
            NodeView::Link { name, .. } => name,
        }
    }

    /// The children of a directory; empty for other nodes.
    pub open spec fn children(self) -> Seq<usize> {
        match self {
            NodeView::Dir { children, .. } => children,
            _ => Seq::empty(),
        }
    }
}

impl View for FileContainer {
    type V = NodeView;

    open spec fn view(&self) -> NodeView {
        match self {
            FileContainer::File(f) => NodeView::File {
                name: f.name@,
                content: f.content@,
                times: f.times@,
            },
            FileContainer::Dir(d) => NodeView::Dir { name: d.name@, children: d.children@ },
            FileContainer::Link(l) => NodeView::Link { name: l.name@, target: l.link_file },
        }
    }
}

impl FileContainer {
    pub fn filename(&self) -> (r: &String)
        ensures
            r@ == self@.name(),
    {
        match self {
            FileContainer::File(f) => &f.name,
            FileContainer::Dir(d) => &d.name,
            FileContainer::Link(l) => &l.name,
        }
    }
}

/// Whether a child of `dir` is named `name`.
pub open spec fn has_child(v: Seq<NodeView>, dir: int, name: Seq<char>) -> bool {
    exists|i: int|
        0 <= i < v[dir].children().len() && #[trigger] v[v[dir].children()[i] as int].name()
            == name
}

/// Whether a child of `dir` named `name` is a directory (`is_dir`) or is not.
pub open spec fn has_child_kind(v: Seq<NodeView>, dir: int, name: Seq<char>, is_dir: bool) -> bool {
    exists|i: int|
        0 <= i < v[dir].children().len() && #[trigger] v[v[dir].children()[i] as int].name() == name
            && (v[v[dir].children()[i] as int] is Dir) == is_dir
}

/// Names within one directory are distinct and every child is a node.
pub open spec fn children_ok(v: Seq<NodeView>, ch: Seq<usize>) -> bool {
    &&& forall|i: int| 0 <= i < ch.len() ==> #[trigger] ch[i] < v.len()
    &&& forall|i: int, j: int|
        0 <= i < ch.len() && 0 <= j < ch.len() && i != j ==> #[trigger] v[ch[i] as int].name()
            != #[trigger] v[ch[j] as int].name()
}

/// Node 0 is the root directory, names are unique in every directory, and a
/// link stands for an existing node that is not itself a link.
pub open spec fn wf_nodes(v: Seq<NodeView>) -> bool {
    &&& v.len() >= 1
    &&& v[0] is Dir
    &&& forall|d: int| 0 <= d < v.len() ==> children_ok(v, #[trigger] v[d].children())
    &&& forall|d: int|
        0 <= d < v.len() && #[trigger] v[d] is Link ==> {
            let t = v[d]->Link_target;
            t < v.len() && !(v[t as int] is Link)
        }
}

/// The tree after node `n` is added as the last child of `dir`; the new node
/// takes the next free number.
pub open spec fn spec_add_child(v: Seq<NodeView>, dir: int, n: NodeView) -> Seq<NodeView> {
    v.update(
        dir,
        NodeView::Dir { name: v[dir].name(), children: v[dir].children().push(v.len() as usize) },
    ).push(n)
}

/// The tree after the `i`-th child of `dir` is taken out of it.
pub open spec fn spec_remove_child(v: Seq<NodeView>, dir: int, i: int) -> Seq<NodeView> {
    v.update(dir, NodeView::Dir { name: v[dir].name(), children: v[dir].children().remove(i) })
}

/// The file that reads and writes on node `id` reach: the node itself, or the
/// target of a link.
pub open spec fn file_node(v: Seq<NodeView>, id: int) -> int {
    match v[id] {
        NodeView::Link { target, .. } => target as int,
        _ => id,
    }
}

/// The bytes of `c` after `b` is written at `off`: the file grows, with zeros,
/// to cover the write.
pub open spec fn spec_write(c: Seq<u8>, off: int, b: Seq<u8>) -> Seq<u8> {
    let end = off + b.len();
    let padded = if c.len() < end {
        c + Seq::new((end - c.len()) as nat, |i: int| 0u8)
    } else {
        c
    };
    padded.subrange(0, off) + b + padded.subrange(end, padded.len() as int)
}

/// The number of bytes that a read of `len` bytes at `off` returns.
pub open spec fn spec_read_len(size: int, off: int, len: int) -> int {
    if off >= size {
        0
    } else if len < size - off {
        len
    } else {
        size - off
    }
}

/// What `stat` reports of node `n`, numbered `id`.
pub open spec fn spec_stat(n: NodeView, id: int) -> Stat {
    let z = zero_time();
    match n {
        NodeView::Dir { .. } => Stat {
            dev: 0,
            ino: (id + 1) as u64,
            mode: MODE_DIR,
            nlink: 1,
            uid: 0,
            gid: 0,
            rdev: 0,
            size: 0,
            blksize: 512,
            blocks: 0,
            atime: z,
            mtime: z,
            ctime: z,
        },
        NodeView::File { content, times, .. } => Stat {
            dev: 0,
            ino: (id + 1) as u64,
            mode: MODE_FILE,
            nlink: 1,
            uid: 0,
            gid: 0,
            rdev: 0,
            size: content.len() as u64,
            blksize: 512,
            blocks: 0,
            atime: times[1],
            mtime: times[2],
            ctime: z,
        },
        NodeView::Link { .. } => Stat {
            dev: 0,
            ino: (id + 1) as u64,
            mode: MODE_LINK,
            nlink: 1,
            uid: 0,
            gid: 0,
            rdev: 0,
            size: 3,
            blksize: 4096,
            blocks: 8,
            atime: z,
            mtime: z,
            ctime: z,
        },
    }
}

/// Whether `e` lists node `n`: its name, its kind and, for a file, its length.
pub open spec fn entry_of(e: DirEntry, n: NodeView) -> bool {
    &&& e.filename@ == n.name()
    &&& match n {
        NodeView::File { content, .. } => e.file_type == FileType::File && e.len == content.len(),
        NodeView::Dir { .. } => e.file_type == FileType::Directory && e.len == 0,
        NodeView::Link { .. } => e.file_type == FileType::Link && e.len == 0,
    }
}

/// `buf` after a read of `c` from `off` on: the bytes read come first, the
/// rest of `buf` is kept.
pub open spec fn spec_read_into(c: Seq<u8>, off: int, buf: Seq<u8>) -> Seq<u8> {
    let n = spec_read_len(c.len() as int, off, buf.len() as int);
    if off >= c.len() {
        buf
    } else {
        c.subrange(off, off + n) + buf.subrange(n, buf.len() as int)
    }
}

/// A directory handle: a node number of an `AllocFS`.
#[derive(Clone, Copy, Debug, PartialEq, Eq, Structural)]
pub struct FSDir {
    pub inner: usize,
}

impl FSDir {
    pub fn new(inner: usize) -> (r: Self)
        ensures
            r.inner == inner,
    {
        FSDir { inner }
    }
}

/// A file handle: a node number of an `AllocFS`.
#[derive(Clone, Copy, Debug, PartialEq, Eq, Structural)]
pub struct FSFile {
    pub inner: usize,
}

impl FSFile {
    pub fn new(inner: usize) -> (r: Self)
        ensures
            r.inner == inner,
    {
        FSFile { inner }
    }
}

/// A link handle: the link's node and the node it stands for.
#[derive(Clone, Copy, Debug, PartialEq, Eq, Structural)]
pub struct FSLink {
    pub inner: usize,
    pub link_file: usize,
}

/// The in-memory filesystem: nodes numbered from 0, the root.
pub struct AllocFS {
    nodes: Vec<FileContainer>,
}

impl View for AllocFS {
    type V = Seq<NodeView>;

    closed spec fn view(&self) -> Seq<NodeView> {
        self.nodes@.map_values(|c: FileContainer| c@)
    }
}

impl AllocFS {
    pub open spec fn wf(&self) -> bool {
        wf_nodes(self@)
    }

    /// A filesystem holding an empty root directory.
    pub fn new() -> (r: Self)
        ensures
            r.wf(),
            r@ == seq![NodeView::Dir { name: Seq::<char>::empty(), children: Seq::<usize>::empty() }],
    {
        let mut nodes: Vec<FileContainer> = Vec::new();
        nodes.push(FileContainer::Dir(FSDirInner { name: String::new(), children: Vec::new() }));
        let r = AllocFS { nodes };
        assert(r@ =~= seq![NodeView::Dir { name: Seq::<char>::empty(), children: Seq::<usize>::empty() }]);
        r
    }

    /// The root directory.
    pub fn root_dir(&self) -> (r: FSDir)
        ensures
            r.inner == 0,
    {
        FSDir { inner: 0 }
    }

    pub fn name(&self) -> (r: &'static str)
        ensures
            r@ == "allocfs"@,
    {
        "allocfs"
    }

    /// The number of nodes.
    pub fn len(&self) -> (r: usize)
        ensures
            r == self@.len(),
    {
        self.nodes.len()
    }

    /// The kind of node `id`.
    pub fn file_type(&self, id: usize) -> (r: FileType)
        requires
            id < self@.len(),
        ensures
            r == FileType::File <==> self@[id as int] is File,
            r == FileType::Directory <==> self@[id as int] is Dir,
            r == FileType::Link <==> self@[id as int] is Link,
    {
        match &self.nodes[id] {
            FileContainer::File(_) => FileType::File,
            FileContainer::Dir(_) => FileType::Directory,
            FileContainer::Link(_) => FileType::Link,
        }
    }

    /// The handle of a link node, which names the link and what it stands for.
    pub fn link_handle(&self, id: usize) -> (r: Option<FSLink>)
        requires
            id < self@.len(),
        ensures
            r is Some <==> self@[id as int] is Link,
            r matches Some(l) ==> l.inner == id && l.link_file == self@[id as int]->Link_target,
    {
        match &self.nodes[id] {
            FileContainer::Link(l) => Some(FSLink { inner: id, link_file: l.link_file }),
            _ => None,
        }
    }

    fn children_of(&self, dir: usize) -> (r: Option<&Vec<usize>>)
        requires
            dir < self@.len(),
        ensures
            r is Some <==> self@[dir as int] is Dir,
            r matches Some(c) ==> c@ == self@[dir as int].children(),
    {
        match &self.nodes[dir] {
            FileContainer::Dir(d) => Some(&d.children),
            _ => None,
        }
    }

    fn name_is(&self, id: usize, name: &str) -> (r: bool)
        requires
            id < self@.len(),
        ensures
            r == (self@[id as int].name() == name@),
    {
        str_eq(self.nodes[id].filename().as_str(), name)
    }

    /// The position among the children of `dir` of the child named `name`.
    fn find_child(&self, dir: usize, name: &str) -> (r: Option<usize>)
        requires
            self.wf(),
            dir < self@.len(),
            self@[dir as int] is Dir,
        ensures
            r is None <==> !has_child(self@, dir as int, name@),
            r matches Some(i) ==> i < self@[dir as int].children().len() && self@[
                self@[dir as int].children()[i as int] as int].name() == name@,
    {
        let ch = self.children_of(dir).unwrap();
        let mut i: usize = 0;
        while i < ch.len()
            invariant
                self.wf(),
                dir < self@.len(),
                ch@ == self@[dir as int].children(),
                i <= ch@.len(),
                forall|k: int| 0 <= k < i ==> #[trigger] self@[ch@[k] as int].name() != name@,
            decreases ch@.len() - i,
        {
            assert(children_ok(self@, self@[dir as int].children()));
            if self.name_is(ch[i], name) {
                return Some(i);
            }
            i = i + 1;
        }
        None
    }

    proof fn lemma_children_ok_kept(v: Seq<NodeView>, w: Seq<NodeView>, ch: Seq<usize>)
        requires
            children_ok(v, ch),
            v.len() <= w.len(),
            forall|k: int| 0 <= k < v.len() ==> #[trigger] w[k].name() == v[k].name(),
        ensures
            children_ok(w, ch),
    {
        assert forall|i: int, j: int|
            0 <= i < ch.len() && 0 <= j < ch.len() && i != j implies #[trigger] w[ch[i] as int].name()
                != #[trigger] w[ch[j] as int].name() by {
            assert(v[ch[i] as int].name() != v[ch[j] as int].name());
        }
    }

    proof fn lemma_new_dir_children_ok(v: Seq<NodeView>, w: Seq<NodeView>, old_ch: Seq<usize>, n: NodeView)
        requires
            children_ok(v, old_ch),
            v.len() <= usize::MAX,
            w.len() == v.len() + 1,
            w[v.len() as int] == n,
            forall|k: int| 0 <= k < v.len() ==> #[trigger] w[k].name() == v[k].name(),
            forall|i: int| 0 <= i < old_ch.len() ==> #[trigger] v[old_ch[i] as int].name() != n.name(),
        ensures
            children_ok(w, old_ch.push(v.len() as usize)),
    {
        let ch = old_ch.push(v.len() as usize);
        assert forall|i: int| 0 <= i < ch.len() implies #[trigger] ch[i] < w.len() by {
            if i < old_ch.len() {
                assert(ch[i] == old_ch[i]);
            }
        }
        assert forall|i: int, j: int|
            0 <= i < ch.len() && 0 <= j < ch.len() && i != j implies #[trigger] w[ch[i] as int].name()
                != #[trigger] w[ch[j] as int].name() by {
            if i < old_ch.len() && j < old_ch.len() {
                assert(ch[i] == old_ch[i]);
                assert(ch[j] == old_ch[j]);
                assert(v[old_ch[i] as int].name() != v[old_ch[j] as int].name());
            } else if i == old_ch.len() {
                assert(ch[j] == old_ch[j]);
                assert(v[old_ch[j] as int].name() != n.name());
            } else {
                assert(ch[i] == old_ch[i]);
                assert(v[old_ch[i] as int].name() != n.name());
            }
        }
    }

    proof fn lemma_add_child(v: Seq<NodeView>, dir: int, n: NodeView)
        requires
            wf_nodes(v),
            v.len() <= usize::MAX,
            0 <= dir < v.len(),
            v[dir] is Dir,
            !has_child(v, dir, n.name()),
            n.children().len() == 0,
            n is Link ==> {
                let t = n->Link_target;
                t < v.len() && !(v[t as int] is Link)
            },
        ensures
            wf_nodes(spec_add_child(v, dir, n)),
            has_child(spec_add_child(v, dir, n), dir, n.name()),
    {
        let w = spec_add_child(v, dir, n);
        let old_ch = v[dir].children();
        let ch = w[dir].children();
        assert(ch == old_ch.push(v.len() as usize));
        assert(w[v.len() as int] == n);
        assert forall|k: int| 0 <= k < v.len() implies #[trigger] w[k].name() == v[k].name() by {
            if k != dir {
                assert(w[k] == v[k]);
            }
        }
        assert forall|i: int| 0 <= i < old_ch.len() implies #[trigger] v[old_ch[i] as int].name()
            != n.name() by {
            if v[old_ch[i] as int].name() == n.name() {
                assert(has_child(v, dir, n.name()));
            }
        }
        assert(children_ok(v, old_ch));
        Self::lemma_new_dir_children_ok(v, w, old_ch, n);
        assert forall|d: int| 0 <= d < w.len() implies children_ok(w, #[trigger] w[d].children()) by {
            if d == dir {
            } else if d < v.len() {
                assert(w[d] == v[d]);
                assert(children_ok(v, v[d].children()));
                Self::lemma_children_ok_kept(v, w, v[d].children());
            } else {
                assert(w[d] == n);
            }
        }
        assert forall|d: int| 0 <= d < w.len() && #[trigger] w[d] is Link implies {
            let t = w[d]->Link_target;
            t < w.len() && !(w[t as int] is Link)
        } by {
            if d < v.len() {
                assert(w[d] == v[d]);
                let t = v[d]->Link_target;
                if t as int != dir {
                    assert(w[t as int] == v[t as int]);
                }
            } else {
                let t = n->Link_target;
                if t as int != dir {
                    assert(w[t as int] == v[t as int]);
                }
            }
        }
        let last = old_ch.len() as int;
        assert(w[ch[last] as int].name() == n.name());
    }

    /// Adds node `n` as a new child of directory `dir`.
    fn add_child(&mut self, dir: usize, n: FileContainer)
        requires
            old(self).wf(),
            dir < old(self)@.len(),
            old(self)@[dir as int] is Dir,
            !has_child(old(self)@, dir as int, n@.name()),
            n@.children().len() == 0,
            n@ is Link ==> {
                let t = n@->Link_target;
                t < old(self)@.len() && !(old(self)@[t as int] is Link)
            },
        ensures
            final(self).wf(),
            final(self)@ == spec_add_child(old(self)@, dir as int, n@),
    {
        let id = self.nodes.len();
        proof {
            Self::lemma_add_child(self@, dir as int, n@);
        }
        let mut tmp = FileContainer::Dir(FSDirInner { name: String::new(), children: Vec::new() });
        self.nodes.set_and_swap(dir, &mut tmp);
        match tmp {
            FileContainer::Dir(mut d) => {
                d.children.push(id);
                self.nodes.set(dir, FileContainer::Dir(d));
            },
            _ => {},
        }
        self.nodes.push(n);
        assert(self@ =~= spec_add_child(old(self)@, dir as int, n@));
    }

    /// Makes an empty directory `name` in `dir`.
    pub fn mkdir(&mut self, dir: usize, name: &str) -> (r: Result<(), Errno>)
        requires
            old(self).wf(),
            dir < old(self)@.len(),
        ensures
            final(self).wf(),
            !(old(self)@[dir as int] is Dir) ==> r == Err::<(), Errno>(Errno::ENOTDIR)
                && final(self)@ == old(self)@,
            old(self)@[dir as int] is Dir && has_child(old(self)@, dir as int, name@) ==> r == Err::<
                (),
                Errno,
            >(Errno::EEXIST) && final(self)@ == old(self)@,
            old(self)@[dir as int] is Dir && !has_child(old(self)@, dir as int, name@) ==> r is Ok
                && final(self)@ == spec_add_child(
                old(self)@,
                dir as int,
                NodeView::Dir { name: name@, children: Seq::empty() },
            ),
    {
        self.create(dir, name, FileType::Directory)
    }

    /// Makes an empty file or directory `name` in `dir`.
    pub fn create(&mut self, dir: usize, name: &str, ty: FileType) -> (r: Result<(), Errno>)
        requires
            old(self).wf(),
            dir < old(self)@.len(),
            ty == FileType::File || ty == FileType::Directory,
        ensures
            final(self).wf(),
            !(old(self)@[dir as int] is Dir) ==> r == Err::<(), Errno>(Errno::ENOTDIR)
                && final(self)@ == old(self)@,
            old(self)@[dir as int] is Dir && has_child(old(self)@, dir as int, name@) ==> r == Err::<
                (),
                Errno,
            >(Errno::EEXIST) && final(self)@ == old(self)@,
            old(self)@[dir as int] is Dir && !has_child(old(self)@, dir as int, name@) ==> r is Ok
                && final(self)@ == spec_add_child(
                old(self)@,
                dir as int,
                if ty == FileType::Directory {
                    NodeView::Dir { name: name@, children: Seq::empty() }
                } else {
                    NodeView::File {
                        name: name@,
                        content: Seq::empty(),
                        times: seq![zero_time(), zero_time(), zero_time()],
                    }
                },
            ),
    {
        if !self.is_dir(dir) {
            return Err(Errno::ENOTDIR);
        }
        if self.find_child(dir, name).is_some() {
            return Err(Errno::EEXIST);
        }
        let n = if ty == FileType::Directory {
            FileContainer::Dir(FSDirInner { name: name.to_owned(), children: Vec::new() })
        } else {
            let t = [time_zero(), time_zero(), time_zero()];
            assert(t@ =~= seq![zero_time(), zero_time(), zero_time()]);
            FileContainer::File(FSFileInner { name: name.to_owned(), content: Vec::new(), times: t })
        };
        self.add_child(dir, n);
        Ok(())
    }

    /// Whether node `id` is a directory.
    pub fn is_dir(&self, id: usize) -> (r: bool)
        requires
            id < self@.len(),
        ensures
            r == self@[id as int] is Dir,
    {
        match &self.nodes[id] {
            FileContainer::Dir(_) => true,
            _ => false,
        }
    }

    /// Adds `name` to `dir` as a link to node `src`; a link to a link stands for
    /// the node that the latter stands for.
    pub fn link(&mut self, dir: usize, name: &str, src: usize) -> (r: Result<(), Errno>)
        requires
            old(self).wf(),
            dir < old(self)@.len(),
            src < old(self)@.len(),
        ensures
            final(self).wf(),
            !(old(self)@[dir as int] is Dir) ==> r == Err::<(), Errno>(Errno::ENOTDIR)
                && final(self)@ == old(self)@,
            old(self)@[dir as int] is Dir && has_child(old(self)@, dir as int, name@) ==> r == Err::<
                (),
                Errno,
            >(Errno::EEXIST) && final(self)@ == old(self)@,
            old(self)@[dir as int] is Dir && !has_child(old(self)@, dir as int, name@) ==> r is Ok
                && final(self)@ == spec_add_child(
                old(self)@,
                dir as int,
                NodeView::Link { name: name@, target: file_node(old(self)@, src as int) as usize },
            ),
    {
        if !self.is_dir(dir) {
            return Err(Errno::ENOTDIR);
        }
        if self.find_child(dir, name).is_some() {
            return Err(Errno::EEXIST);
        }
        let target = self.resolve(src);
        self.add_child(dir, FileContainer::Link(FSLinkInner { name: name.to_owned(), link_file: target }));
        Ok(())
    }

    /// The node that reads and writes on `id` reach.
    fn resolve(&self, id: usize) -> (r: usize)
        requires
            self.wf(),
            id < self@.len(),
        ensures
            r == file_node(self@, id as int),
            r < self@.len(),
            !(self@[r as int] is Link),
    {
        match &self.nodes[id] {
            FileContainer::Link(l) => l.link_file,
            _ => id,
        }
    }

    /// The node named `name` in `dir`.
    pub fn lookup(&self, dir: usize, name: &str) -> (r: Result<usize, Errno>)
        requires
            self.wf(),
            dir < self@.len(),
        ensures
            !(self@[dir as int] is Dir) ==> r == Err::<usize, Errno>(Errno::ENOTDIR),
            self@[dir as int] is Dir && !has_child(self@, dir as int, name@) ==> r == Err::<
                usize,
                Errno,
            >(Errno::ENOENT),
            self@[dir as int] is Dir && has_child(self@, dir as int, name@) ==> r is Ok,
            r matches Ok(id) ==> self@[dir as int].children().contains(id) && id < self@.len()
                && self@[id as int].name() == name@,
    {
        if !self.is_dir(dir) {
            return Err(Errno::ENOTDIR);
        }
        match self.find_child(dir, name) {
            None => Err(Errno::ENOENT),
            Some(i) => {
                let ch = self.children_of(dir).unwrap();
                assert(children_ok(self@, self@[dir as int].children()));
                Ok(ch[i])
            },
        }
    }
    proof fn lemma_remove_child(v: Seq<NodeView>, dir: int, i: int)
        requires
            wf_nodes(v),
            0 <= dir < v.len(),
            v[dir] is Dir,
            0 <= i < v[dir].children().len(),
        ensures
            wf_nodes(spec_remove_child(v, dir, i)),
            spec_remove_child(v, dir, i).len() == v.len(),
    {
        let w = spec_remove_child(v, dir, i);
        let old_ch = v[dir].children();
        let ch = old_ch.remove(i);
        assert(w[dir].children() == ch);
        assert forall|k: int| 0 <= k < v.len() implies #[trigger] w[k].name() == v[k].name() by {
            if k != dir {
                assert(w[k] == v[k]);
            }
        }
        assert(children_ok(v, old_ch));
        assert forall|a: int| 0 <= a < ch.len() implies #[trigger] ch[a] < w.len() by {
            if a < i {
                assert(ch[a] == old_ch[a]);
            } else {
                assert(ch[a] == old_ch[a + 1]);
            }
        }
        assert forall|a: int, b: int|
            0 <= a < ch.len() && 0 <= b < ch.len() && a != b implies #[trigger] w[ch[a] as int].name()
                != #[trigger] w[ch[b] as int].name() by {
            let a2 = if a < i { a } else { a + 1 };
            let b2 = if b < i { b } else { b + 1 };
            assert(ch[a] == old_ch[a2]);
            assert(ch[b] == old_ch[b2]);
            assert(v[old_ch[a2] as int].name() != v[old_ch[b2] as int].name());
        }
        assert forall|d: int| 0 <= d < w.len() implies children_ok(w, #[trigger] w[d].children()) by {
            if d != dir {
                assert(w[d] == v[d]);
                assert(children_ok(v, v[d].children()));
                Self::lemma_children_ok_kept(v, w, v[d].children());
            }
        }
        assert forall|d: int| 0 <= d < w.len() && #[trigger] w[d] is Link implies {
            let t = w[d]->Link_target;
            t < w.len() && !(w[t as int] is Link)
        } by {
            assert(w[d] == v[d]);
            let t = v[d]->Link_target;
            if t as int != dir {
                assert(w[t as int] == v[t as int]);
            }
        }
    }

    /// Takes the `i`-th child out of directory `dir`.
    fn remove_child(&mut self, dir: usize, i: usize)
        requires
            old(self).wf(),
            dir < old(self)@.len(),
            old(self)@[dir as int] is Dir,
            i < old(self)@[dir as int].children().len(),
        ensures
            final(self).wf(),
            final(self)@ == spec_remove_child(old(self)@, dir as int, i as int),
    {
        proof {
            Self::lemma_remove_child(self@, dir as int, i as int);
        }
        let mut tmp = FileContainer::Dir(FSDirInner { name: String::new(), children: Vec::new() });
        self.nodes.set_and_swap(dir, &mut tmp);
        match tmp {
            FileContainer::Dir(mut d) => {
                d.children.remove(i);
                self.nodes.set(dir, FileContainer::Dir(d));
            },
            _ => {},
        }
        assert(self@ =~= spec_remove_child(old(self)@, dir as int, i as int));
    }

    /// Takes the child named `name` out of `dir` if it is a directory
    /// (`want_dir`) or if it is not (`!want_dir`).
    fn remove_kind(&mut self, dir: usize, name: &str, want_dir: bool) -> (r: Result<(), Errno>)
        requires
            old(self).wf(),
            dir < old(self)@.len(),
        ensures
            final(self).wf(),
            !(old(self)@[dir as int] is Dir) ==> r == Err::<(), Errno>(Errno::ENOTDIR),
            old(self)@[dir as int] is Dir ==> (r is Ok <==> has_child_kind(
                old(self)@,
                dir as int,
                name@,
                want_dir,
            )),
            old(self)@[dir as int] is Dir && r is Err ==> r == Err::<(), Errno>(Errno::ENOENT),
            r is Err ==> final(self)@ == old(self)@,
            r is Ok ==> exists|i: int|
                0 <= i < old(self)@[dir as int].children().len() && #[trigger] old(self)@[old(self)@[dir as int].children()[i] as int].name()
                    == name@ && final(self)@
                    == spec_remove_child(old(self)@, dir as int, i),
    {
        if !self.is_dir(dir) {
            return Err(Errno::ENOTDIR);
        }
        match self.find_child(dir, name) {
            None => Err(Errno::ENOENT),
            Some(i) => {
                let ch = self.children_of(dir).unwrap();
                assert(children_ok(self@, self@[dir as int].children()));
                let c = ch[i];
                if self.is_dir(c) != want_dir {
                    proof {
                        let v = self@;
                        let chs = v[dir as int].children();
                        if has_child_kind(v, dir as int, name@, want_dir) {
                            let j = choose|j: int|
                                0 <= j < chs.len() && v[chs[j] as int].name() == name@ && (
                                v[chs[j] as int] is Dir) == want_dir;
                            assert(j != i);
                        }
                    }
                    return Err(Errno::ENOENT);
                }
                self.remove_child(dir, i);
                Ok(())
            },
        }
    }

    /// Removes the directory `name` from `dir`.
    pub fn rmdir(&mut self, dir: usize, name: &str) -> (r: Result<(), Errno>)
        requires
            old(self).wf(),
            dir < old(self)@.len(),
        ensures
            final(self).wf(),
            !(old(self)@[dir as int] is Dir) ==> r == Err::<(), Errno>(Errno::ENOTDIR),
            old(self)@[dir as int] is Dir ==> (r is Ok <==> has_child_kind(
                old(self)@,
                dir as int,
                name@,
                true,
            )),
            old(self)@[dir as int] is Dir && r is Err ==> r == Err::<(), Errno>(Errno::ENOENT),
            r is Err ==> final(self)@ == old(self)@,
            r is Ok ==> exists|i: int|
                0 <= i < old(self)@[dir as int].children().len() && #[trigger] old(self)@[old(self)@[dir as int].children()[i] as int].name()
                    == name@ && final(self)@
                    == spec_remove_child(old(self)@, dir as int, i),
    {
        self.remove_kind(dir, name, true)
    }

    /// Removes the file or link `name` from `dir`; directories are left alone.
    pub fn remove(&mut self, dir: usize, name: &str) -> (r: Result<(), Errno>)
        requires
            old(self).wf(),
            dir < old(self)@.len(),
        ensures
            final(self).wf(),
            !(old(self)@[dir as int] is Dir) ==> r == Err::<(), Errno>(Errno::ENOTDIR),
            old(self)@[dir as int] is Dir ==> (r is Ok <==> has_child_kind(
                old(self)@,
                dir as int,
                name@,
                false,
            )),
            old(self)@[dir as int] is Dir && r is Err ==> r == Err::<(), Errno>(Errno::ENOENT),
            r is Err ==> final(self)@ == old(self)@,
            r is Ok ==> exists|i: int|
                0 <= i < old(self)@[dir as int].children().len() && #[trigger] old(self)@[old(self)@[dir as int].children()[i] as int].name()
                    == name@ && final(self)@
                    == spec_remove_child(old(self)@, dir as int, i),
    {
        self.remove_kind(dir, name, false)
    }

    /// Same as `remove`.
    pub fn unlink(&mut self, dir: usize, name: &str) -> (r: Result<(), Errno>)
        requires
            old(self).wf(),
            dir < old(self)@.len(),
        ensures
            final(self).wf(),
            !(old(self)@[dir as int] is Dir) ==> r == Err::<(), Errno>(Errno::ENOTDIR),
            old(self)@[dir as int] is Dir ==> (r is Ok <==> has_child_kind(
                old(self)@,
                dir as int,
                name@,
                false,
            )),
            old(self)@[dir as int] is Dir && r is Err ==> r == Err::<(), Errno>(Errno::ENOENT),
            r is Err ==> final(self)@ == old(self)@,
            r is Ok ==> exists|i: int|
                0 <= i < old(self)@[dir as int].children().len() && #[trigger] old(self)@[old(self)@[dir as int].children()[i] as int].name()
                    == name@ && final(self)@
                    == spec_remove_child(old(self)@, dir as int, i),
    {
        self.remove(dir, name)
    }

    proof fn lemma_replace_file(v: Seq<NodeView>, f: int, n: NodeView)
        requires
            wf_nodes(v),
            0 <= f < v.len(),
            v[f] is File,
            n is File,
            n.name() == v[f].name(),
        ensures
            wf_nodes(v.update(f, n)),
    {
        let w = v.update(f, n);
        assert forall|k: int| 0 <= k < v.len() implies #[trigger] w[k].name() == v[k].name() by {
            if k != f {
                assert(w[k] == v[k]);
            }
        }
        assert forall|d: int| 0 <= d < w.len() implies children_ok(w, #[trigger] w[d].children()) by {
            if d != f {
                assert(w[d] == v[d]);
                assert(children_ok(v, v[d].children()));
                Self::lemma_children_ok_kept(v, w, v[d].children());
            }
        }
        assert forall|d: int| 0 <= d < w.len() && #[trigger] w[d] is Link implies {
            let t = w[d]->Link_target;
            t < w.len() && !(w[t as int] is Link)
        } by {
            assert(w[d] == v[d]);
            let t = v[d]->Link_target;
            if t as int != f {
                assert(w[t as int] == v[t as int]);
            }
        }
    }

    /// Takes file node `f` out of the table, leaving a placeholder in its place.
    fn take_file(&mut self, f: usize) -> (r: FSFileInner)
        requires
            f < old(self)@.len(),
            old(self)@[f as int] is File,
        ensures
            final(self)@.len() == old(self)@.len(),
            forall|k: int| 0 <= k < old(self)@.len() && k != f ==> final(self)@[k] == old(self)@[k],
            (FileContainer::File(r))@ == old(self)@[f as int],
    {
        let mut tmp = FileContainer::Dir(FSDirInner { name: String::new(), children: Vec::new() });
        self.nodes.set_and_swap(f, &mut tmp);
        match tmp {
            FileContainer::File(file) => file,
            _ => {
                proof {
                    assert(false);
                }
                FSFileInner { name: String::new(), content: Vec::new(), times: [time_zero(), time_zero(), time_zero()] }
            },
        }
    }

    /// Reads into `buf` the bytes of file `id` (or of the file a link stands for)
    /// from `offset` on.
    pub fn readat(&self, id: usize, offset: usize, buf: &mut Vec<u8>) -> (r: Result<usize, Errno>)
        requires
            self.wf(),
            id < self@.len(),
        ensures
            self@[file_node(self@, id as int)] is Dir ==> r == Err::<usize, Errno>(Errno::EISDIR)
                && final(buf)@ == old(buf)@,
            self@[file_node(self@, id as int)] matches NodeView::File { content, .. } ==> {
                let n = spec_read_len(content.len() as int, offset as int, old(buf)@.len() as int);
                &&& r == Ok::<usize, Errno>(n as usize)
                &&& final(buf)@ == spec_read_into(content, offset as int, old(buf)@)
            },
    {
        let f = self.resolve(id);
        match &self.nodes[f] {
            FileContainer::File(file) => Ok(read_file(file, offset, buf)),
            _ => Err(Errno::EISDIR),
        }
    }

    /// Writes `buf` into file `id` (or the file a link stands for) at `offset`,
    /// growing the file with zeros where the write ends past it.
    pub fn writeat(&mut self, id: usize, offset: usize, buf: &[u8]) -> (r: Result<usize, Errno>)
        requires
            old(self).wf(),
            id < old(self)@.len(),
            offset + buf@.len() <= usize::MAX,
        ensures
            final(self).wf(),
            old(self)@[file_node(old(self)@, id as int)] is Dir ==> r == Err::<usize, Errno>(
                Errno::EISDIR,
            ) && final(self)@ == old(self)@,
            old(self)@[file_node(old(self)@, id as int)] matches NodeView::File {
                name,
                content,
                times,
            } ==> r == Ok::<usize, Errno>(buf@.len() as usize) && final(self)@ == old(self)@.update(
                file_node(old(self)@, id as int),
                NodeView::File { name, content: spec_write(content, offset as int, buf@), times },
            ),
    {
        let f = self.resolve(id);
        if self.is_dir(f) {
            return Err(Errno::EISDIR);
        }
        let ghost v = self@;
        let mut file = self.take_file(f);
        write_file(&mut file, offset, buf);
        let n = FileContainer::File(file);
        proof {
            Self::lemma_replace_file(v, f as int, n@);
        }
        self.nodes.set(f, n);
        assert(self@ =~= v.update(f as int, n@));
        Ok(buf.len())
    }

    /// Cuts file `id` (or the file a link stands for) down to `size` bytes; a
    /// shorter file is left as it is.
    pub fn truncate(&mut self, id: usize, size: usize) -> (r: Result<(), Errno>)
        requires
            old(self).wf(),
            id < old(self)@.len(),
        ensures
            final(self).wf(),
            old(self)@[file_node(old(self)@, id as int)] is Dir ==> r == Err::<(), Errno>(
                Errno::EISDIR,
            ) && final(self)@ == old(self)@,
            old(self)@[file_node(old(self)@, id as int)] matches NodeView::File {
                name,
                content,
                times,
            } ==> r is Ok && final(self)@ == old(self)@.update(
                file_node(old(self)@, id as int),
                NodeView::File {
                    name,
                    content: if size < content.len() {
                        content.subrange(0, size as int)
                    } else {
                        content
                    },
                    times,
                },
            ),
    {
        let f = self.resolve(id);
        if self.is_dir(f) {
            return Err(Errno::EISDIR);
        }
        let ghost v = self@;
        let mut file = self.take_file(f);
        if size < file.content.len() {
            file.content.truncate(size);
        }
        let n = FileContainer::File(file);
        proof {
            Self::lemma_replace_file(v, f as int, n@);
        }
        self.nodes.set(f, n);
        assert(self@ =~= v.update(f as int, n@));
        Ok(())
    }

    /// Sets the access time (`times[0]`) and modification time (`times[1]`) of
    /// file `id`; an `nsec` of `UTIME_OMIT` keeps that time.
    pub fn utimes(&mut self, id: usize, times: &[TimeSpec]) -> (r: Result<(), Errno>)
        requires
            old(self).wf(),
            id < old(self)@.len(),
            times@.len() >= 2,
        ensures
            final(self).wf(),
            !(old(self)@[id as int] is File) ==> r == Err::<(), Errno>(Errno::ENOSYS)
                && final(self)@ == old(self)@,
            old(self)@[id as int] matches NodeView::File { name, content, times: t } ==> r is Ok
                && final(self)@ == old(self)@.update(
                id as int,
                NodeView::File {
                    name,
                    content,
                    times: seq![
                        t[0],
                        if times@[0].nsec != UTIME_OMIT { times@[0] } else { t[1] },
                        if times@[1].nsec != UTIME_OMIT { times@[1] } else { t[2] },
                    ],
                },
            ),
    {
        match &self.nodes[id] {
            FileContainer::File(_) => {},
            _ => {
                return Err(Errno::ENOSYS);
            },
        }
        let ghost v = self@;
        let mut file = self.take_file(id);
        let t = file.times;
        let atime = if times[0].nsec != UTIME_OMIT { times[0] } else { t[1] };
        let mtime = if times[1].nsec != UTIME_OMIT { times[1] } else { t[2] };
        file.times = [t[0], atime, mtime];
        let n = FileContainer::File(file);
        assert(n@->File_times =~= seq![t@[0], atime, mtime]);
        proof {
            Self::lemma_replace_file(v, id as int, n@);
        }
        self.nodes.set(id, n);
        assert(self@ =~= v.update(id as int, n@));
        Ok(())
    }

    /// Metadata of node `id`. Each node's `ino` is its number plus one.
    pub fn stat(&self, id: usize) -> (r: Result<Stat, Errno>)
        requires
            self.wf(),
            id < self@.len(),
            id < u64::MAX,
        ensures
            r == Ok::<Stat, Errno>(spec_stat(self@[id as int], id as int)),
    {
        let st = stat_of(&self.nodes[id], id);
        Ok(st)
    }

    /// The entries of directory `dir`, in order of creation.
    pub fn read_dir(&self, dir: usize) -> (r: Result<Vec<DirEntry>, Errno>)
        requires
            self.wf(),
            dir < self@.len(),
        ensures
            !(self@[dir as int] is Dir) ==> r == Err::<Vec<DirEntry>, Errno>(Errno::ENOTDIR),
            self@[dir as int] is Dir ==> r is Ok,
            r matches Ok(es) ==> es@.len() == self@[dir as int].children().len() && forall|i: int|
                0 <= i < es@.len() ==> entry_of(
                    #[trigger] es@[i],
                    self@[self@[dir as int].children()[i] as int],
                ),
    {
        let ch = match self.children_of(dir) {
            Some(c) => c,
            None => {
                return Err(Errno::ENOTDIR);
            },
        };
        assert(children_ok(self@, self@[dir as int].children()));
        let mut es: Vec<DirEntry> = Vec::new();
        let mut i: usize = 0;
        while i < ch.len()
            invariant
                self.wf(),
                ch@ == self@[dir as int].children(),
                children_ok(self@, ch@),
                i <= ch@.len(),
                es@.len() == i,
                forall|k: int| 0 <= k < i ==> entry_of(#[trigger] es@[k], self@[ch@[k] as int]),
            decreases ch@.len() - i,
        {
            let c = ch[i];
            let e = match &self.nodes[c] {
                FileContainer::File(f) => DirEntry {
                    filename: f.name.clone(),
                    len: f.content.len(),
                    file_type: FileType::File,
                },
                FileContainer::Dir(d) => DirEntry {
                    filename: d.name.clone(),
                    len: 0,
                    file_type: FileType::Directory,
                },
                FileContainer::Link(l) => DirEntry {
                    filename: l.name.clone(),
                    len: 0,
                    file_type: FileType::Link,
                },
            };
            es.push(e);
            i = i + 1;
        }
        Ok(es)
    }
}


fn read_file(file: &FSFileInner, offset: usize, buf: &mut Vec<u8>) -> (n: usize)
    ensures
        n == spec_read_len(file.content@.len() as int, offset as int, old(buf)@.len() as int),
        final(buf)@ == spec_read_into(file.content@, offset as int, old(buf)@),
{
    let size = file.content.len();
    if offset >= size {
        return 0;
    }
    let n = if buf.len() < size - offset {
        buf.len()
    } else {
        size - offset
    };
    let mut k: usize = 0;
    while k < n
        invariant
            n <= buf@.len(),
            size == file.content@.len(),
            offset + n <= size,
            buf@.len() == old(buf)@.len(),
            k <= n,
            forall|j: int| 0 <= j < k ==> buf@[j] == file.content@[offset + j],
            forall|j: int| k <= j < buf@.len() ==> buf@[j] == old(buf)@[j],
        decreases n - k,
    {
        buf.set(k, file.content[offset + k]);
        k = k + 1;
    }
    assert(buf@ =~= file.content@.subrange(offset as int, offset + n) + old(buf)@.subrange(
        n as int,
        old(buf)@.len() as int,
    ));
    n
}

fn write_file(file: &mut FSFileInner, offset: usize, buf: &[u8])
    requires
        offset + buf@.len() <= usize::MAX,
    ensures
        final(file).name == old(file).name,
        final(file).times == old(file).times,
        final(file).content@ == spec_write(old(file).content@, offset as int, buf@),
{
    let end = offset + buf.len();
    let ghost c0 = file.content@;
    if file.content.len() < end {
        file.content.resize(end, 0);
    }
    let ghost padded = file.content@;
    assert(padded =~= if c0.len() < end {
        c0 + Seq::new((end - c0.len()) as nat, |i: int| 0u8)
    } else {
        c0
    });
    let mut k: usize = 0;
    while k < buf.len()
        invariant
            end == offset + buf@.len(),
            file.content@.len() == padded.len(),
            padded.len() >= end,
            k <= buf@.len(),
            file.name == old(file).name,
            file.times == old(file).times,
            forall|j: int| 0 <= j < offset ==> file.content@[j] == padded[j],
            forall|j: int| 0 <= j < k ==> file.content@[offset + j] == buf@[j],
            forall|j: int| offset + k <= j < padded.len() ==> file.content@[j] == padded[j],
        decreases buf@.len() - k,
    {
        file.content.set(offset + k, buf[k]);
        k = k + 1;
    }
    assert(file.content@ =~= spec_write(c0, offset as int, buf@));
}

fn stat_of(c: &FileContainer, id: usize) -> (r: Stat)
    requires
        id < u64::MAX,
    ensures
        r == spec_stat(c@, id as int),
{
    let ino = id as u64 + 1;
    let z = time_zero();
    match c {
        FileContainer::Dir(_) => Stat {
            dev: 0,
            ino,
            mode: MODE_DIR,
            nlink: 1,
            uid: 0,
            gid: 0,
            rdev: 0,
            size: 0,
            blksize: 512,
            blocks: 0,
            atime: z,
            mtime: z,
            ctime: z,
        },
        FileContainer::File(f) => Stat {
            dev: 0,
            ino,
            mode: MODE_FILE,
            nlink: 1,
            uid: 0,
            gid: 0,
            rdev: 0,
            size: f.content.len() as u64,
            blksize: 512,
            blocks: 0,
            atime: f.times[1],
            mtime: f.times[2],
            ctime: z,
        },
        FileContainer::Link(_) => Stat {
            dev: 0,
            ino,
            mode: MODE_LINK,
            nlink: 1,
            uid: 0,
            gid: 0,
            rdev: 0,
            size: 3,
            blksize: 4096,
            blocks: 8,
            atime: z,
            mtime: z,
            ctime: z,
        },
    }
}


/// Names within a directory stay distinct: two different children of one
/// directory never share a name.
pub proof fn law_names_unique(fs: &AllocFS, dir: int, i: int, j: int)
    requires
        fs.wf(),
        0 <= dir < fs@.len(),
        0 <= i < fs@[dir].children().len(),
        0 <= j < fs@[dir].children().len(),
        i != j,
    ensures
        fs@[fs@[dir].children()[i] as int].name() != fs@[fs@[dir].children()[j] as int].name(),
{
    assert(children_ok(fs@, fs@[dir].children()));
}

/// Once `create`, `mkdir` or `link` has added `n` to directory `dir`, its name
/// is taken there, so a second call with that name fails with `EEXIST`.
pub proof fn law_added_name_taken(v: Seq<NodeView>, dir: int, n: NodeView)
    requires
        wf_nodes(v),
        v.len() <= usize::MAX,
        0 <= dir < v.len(),
        v[dir] is Dir,
        !has_child(v, dir, n.name()),
        n.children().len() == 0,
        n is Link ==> {
            let t = n->Link_target;
            t < v.len() && !(v[t as int] is Link)
        },
    ensures
        wf_nodes(spec_add_child(v, dir, n)),
        has_child(spec_add_child(v, dir, n), dir, n.name()),
{
    AllocFS::lemma_add_child(v, dir, n);
}

/// A read at the offset of a write, into a buffer at least as long as what was
/// written, returns at least that many bytes, and they are the bytes written.
pub proof fn law_write_then_read(c: Seq<u8>, off: int, b: Seq<u8>, out: Seq<u8>)
    requires
        0 <= off,
        out.len() >= b.len(),
    ensures
        spec_read_len(spec_write(c, off, b).len() as int, off, out.len() as int) >= b.len(),
        spec_read_into(spec_write(c, off, b), off, out).subrange(0, b.len() as int) == b,
{
    let w = spec_write(c, off, b);
    let end = off + b.len();
    let padded = if c.len() < end {
        c + Seq::new((end - c.len()) as nat, |i: int| 0u8)
    } else {
        c
    };
    assert(padded.len() >= end);
    assert(w.len() == padded.len());
    assert forall|k: int| 0 <= k < b.len() implies w[off + k] == b[k] by {
        assert(w[off + k] == (padded.subrange(0, off) + b)[off + k]);
    }
    if b.len() > 0 {
        let n = spec_read_len(w.len() as int, off, out.len() as int);
        assert(spec_read_into(w, off, out).subrange(0, b.len() as int) =~= b);
    } else {
        assert(spec_read_into(w, off, out).subrange(0, 0) =~= b);
    }
}


/// After `writeat(id, off, b)` succeeds on a file (or a link to one), a
/// `readat(id, off, out)` with `out` at least as long as `b` returns at least
/// `b.len()` bytes, and they begin with `b`.
pub proof fn law_writeat_then_readat(v: Seq<NodeView>, id: int, off: usize, b: Seq<u8>, out: Seq<u8>)
    requires
        wf_nodes(v),
        0 <= id < v.len(),
        v[file_node(v, id)] is File,
        off + b.len() <= usize::MAX,
        out.len() >= b.len(),
    ensures
        ({
            let f = file_node(v, id);
            let w = v.update(
                f,
                NodeView::File {
                    name: v[f]->File_name,
                    content: spec_write(v[f]->File_content, off as int, b),
                    times: v[f]->File_times,
                },
            );
            &&& file_node(w, id) == f
            &&& w[f] matches NodeView::File { content, .. } && spec_read_len(
                content.len() as int,
                off as int,
                out.len() as int,
            ) >= b.len() && spec_read_into(content, off as int, out).subrange(0, b.len() as int)
                == b
        }),
{
    let f = file_node(v, id);
    law_write_then_read(v[f]->File_content, off as int, b, out);
}

} // verus!
