//! An in-memory file system: an arena of nodes with directory entries,
//! link counting and typed node operations.

use crate::errno::Errno;
use vstd::prelude::*;

verus! {

/// Mask selecting the format bits of a file mode.
pub const FILE_MODE_FMT_MASK: u32 = 0o170000;

/// Regular file.
pub const FILE_MODE_IFREG: u32 = 0o100000;

/// Directory.
pub const FILE_MODE_IFDIR: u32 = 0o040000;

/// Character device.
pub const FILE_MODE_IFCHR: u32 = 0o020000;

/// Block device.
pub const FILE_MODE_IFBLK: u32 = 0o060000;

/// Named pipe.
pub const FILE_MODE_IFIFO: u32 = 0o010000;

/// Symbolic link.
pub const FILE_MODE_IFLNK: u32 = 0o120000;

/// The node-type operations backing one node.
#[derive(Debug, PartialEq, Eq)]
pub enum NodeOps {
    /// A directory served from memory.
    Directory,
    /// A regular file backed by memory.
    RegularFile,
    /// A named pipe.
    Fifo,
    /// A device node; opening it is not supported here.
    Device,
    /// A symbolic link and its target path.
    Symlink { target: Vec<u8> },
}

/// A device node: opening it is not supported in this file system.
#[derive(Debug, Clone, Copy, PartialEq, Eq, Structural)]
pub struct DeviceNode;

impl DeviceNode {
    /// Device nodes cannot be opened here.
    pub fn open(&self) -> (r: Result<(), Errno>)
        ensures
            r == Err::<(), Errno>(Errno::ENOSYS),
    {
        Err(Errno::ENOSYS)
    }
}

/// One directory entry: a name and the index of the node it references.
#[derive(Debug, PartialEq, Eq)]
pub struct DirEntry {
    pub name: Vec<u8>,
    pub node: usize,
}

/// One node of the file system.
#[derive(Debug, PartialEq, Eq)]
pub struct FsNode {
    pub mode: u32,
    pub link_count: u64,
    pub children: Vec<DirEntry>,
    pub ops: NodeOps,
}

/// The in-memory file system: an arena of nodes, the root at index zero.
#[derive(Debug, PartialEq, Eq)]
pub struct FileSystem {
    pub nodes: Vec<FsNode>,
}

/// Index of the first entry carrying `name` (the sequence's length when
/// none does).
pub open spec fn first_match(children: Seq<DirEntry>, name: Seq<u8>) -> int
    decreases children.len(),
{
    if children.len() == 0 {
        0
    } else if children[0].name@ == name {
        0
    } else {
        1 + first_match(children.drop_first(), name)
    }
}

proof fn lemma_first_match_at(children: Seq<DirEntry>, name: Seq<u8>, i: int)
    requires
        0 <= i < children.len(),
        children[i].name@ == name,
        forall|k: int| 0 <= k < i ==> (#[trigger] children[k]).name@ != name,
    ensures
        first_match(children, name) == i,
    decreases i,
{
    if i > 0 {
        assert(children.drop_first()[i - 1].name@ == name);
        assert forall|k: int| 0 <= k < i - 1 implies (#[trigger] children.drop_first()[k]).name@
            != name by {
            assert(children.drop_first()[k] == children[k + 1]);
        }
        lemma_first_match_at(children.drop_first(), name, i - 1);
    }
}

/// The marker for this file-system flavour; `new` builds a fresh tree.
#[derive(Debug, Clone, Copy, PartialEq, Eq, Structural)]
pub struct TmpFs;

impl FileSystem {
    /// Well-formedness: a root directory exists and every directory entry
    /// references a node of the arena.
    pub open spec fn wf(self) -> bool {
        &&& self.nodes@.len() >= 1
        &&& self.nodes@[0].ops is Directory
        &&& forall|i: int, j: int|
            0 <= i < self.nodes@.len() && 0 <= j < self.nodes@[i].children@.len() ==> (
            #[trigger] self.nodes@[i].children@[j]).node < self.nodes@.len()
    }

    /// The root directory's index.
    pub fn root(&self) -> (r: usize)
        ensures
            r == 0,
    {
        0
    }

    /// The first entry named `name` in directory `dir`, if any.
    pub open spec fn spec_find(self, dir: int, name: Seq<u8>) -> Option<int> {
        if exists|j: int|
            0 <= j < self.nodes@[dir].children@.len()
            && (#[trigger] self.nodes@[dir].children@[j]).name@ == name {
            Some(first_match(self.nodes@[dir].children@, name))
        } else {
            None
        }
    }

    /// Create a directory named `name` under `dir`: the new node enters
    /// the arena with one link, the entry is appended, and the parent
    /// gains one link (for the new directory's parent entry).  Fails with
    /// `EEXIST` when the name is taken.
    pub fn create_dir(&mut self, dir: usize, name: &[u8]) -> (r: Result<usize, Errno>)
        requires
            old(self).wf(),
            dir < old(self).nodes@.len(),
            old(self).nodes@[dir as int].ops is Directory,
            old(self).nodes@[dir as int].link_count < u64::MAX,
            old(self).nodes@.len() < usize::MAX,
        ensures
            final(self).wf(),
            old(self).spec_find(dir as int, name@) is Some ==> r == Err::<usize, Errno>(
                Errno::EEXIST,
            ) && *final(self) == *old(self),
            old(self).spec_find(dir as int, name@) is None ==> ({
                let child = old(self).nodes@.len();
                &&& r == Ok::<usize, Errno>(child as usize)
                &&& final(self).nodes@.len() == child + 1
                &&& final(self).nodes@[child as int].ops is Directory
                &&& final(self).nodes@[child as int].mode == FILE_MODE_IFDIR
                &&& final(self).nodes@[child as int].link_count == 1
                &&& final(self).nodes@[child as int].children@.len() == 0
                &&& final(self).nodes@[dir as int].children@.len() == old(self).nodes@[
                    dir as int].children@.len() + 1
                &&& final(self).nodes@[dir as int].children@.last().name@ == name@
                &&& final(self).nodes@[dir as int].children@.last().node == child
                &&& final(self).nodes@[dir as int].link_count == old(self).nodes@[
                    dir as int].link_count + 1
                &&& forall|k: int|
                    0 <= k < old(self).nodes@[dir as int].children@.len()
                        ==> final(self).nodes@[dir as int].children@[k] == old(self).nodes@[
                        dir as int].children@[k]
                &&& forall|i: int|
                    0 <= i < child && i != dir ==> final(self).nodes@[i] == old(self).nodes@[i]
            }),
    {
        if self.find_entry(dir, name).is_some() {
            return Err(Errno::EEXIST);
        }
        let child = self.nodes.len();
        self.nodes.push(
            FsNode {
                mode: FILE_MODE_IFDIR,
                link_count: 1,
                children: Vec::new(),
                ops: NodeOps::Directory,
            },
        );
        let entry = DirEntry { name: slice_to_vec(name), node: child };
        let dirnode = &mut self.nodes[dir];
        dirnode.children.push(entry);
        dirnode.link_count = dirnode.link_count + 1;
        Ok(child)
    }

    /// Index of the entry named `name` in directory `dir`, if present.
    pub fn find_entry(&self, dir: usize, name: &[u8]) -> (r: Option<usize>)
        requires
            dir < self.nodes@.len(),
        ensures
            r is Some <==> self.spec_find(dir as int, name@) is Some,
            r matches Some(j) ==> 0 <= j < self.nodes@[dir as int].children@.len()
                && self.nodes@[dir as int].children@[j as int].name@ == name@
                && self.spec_find(dir as int, name@) == Some(j as int),
    {
        let node = &self.nodes[dir];
        let n = node.children.len();
        let mut i: usize = 0;
        while i < n
            invariant
                0 <= i <= n,
                dir < self.nodes@.len(),
                n == self.nodes@[dir as int].children@.len(),
                forall|k: int|
                    0 <= k < i ==> (#[trigger] self.nodes@[dir as int].children@[k]).name@
                        != name@,
            decreases n - i,
        {
            if compare_bytes(self.nodes[dir].children[i].name.as_slice(), name) {
                proof {
                    lemma_first_match_at(self.nodes@[dir as int].children@, name@, i as int);
                }
                return Some(i);
            }
            i = i + 1;
        }
        None
    }

    /// The names of `dir`'s children, in insertion order.
    pub fn copy_child_names(&self, dir: usize) -> (r: Vec<Vec<u8>>)
        requires
            dir < self.nodes@.len(),
        ensures
            r@.len() == self.nodes@[dir as int].children@.len(),
            forall|k: int|
                0 <= k < r@.len() ==> (#[trigger] r@[k])@ == self.nodes@[dir as int].children@[
                    k].name@,
    {
        let node = &self.nodes[dir];
        let n = node.children.len();
        let mut r: Vec<Vec<u8>> = Vec::new();
        let mut i: usize = 0;
        while i < n
            invariant
                0 <= i <= n,
                dir < self.nodes@.len(),
                n == self.nodes@[dir as int].children@.len(),
                r@.len() == i,
                forall|k: int|
                    0 <= k < i ==> (#[trigger] r@[k])@ == self.nodes@[dir as int].children@[
                        k].name@,
            decreases n - i,
        {
            let name = slice_to_vec(self.nodes[dir].children[i].name.as_slice());
            r.push(name);
            i = i + 1;
        }
        r
    }

    /// Create a non-directory node of the given mode under `dir`: regular
    /// files, pipes and devices are supported; any other format is
    /// refused with `EACCES`.
    pub fn mknod(&mut self, dir: usize, name: &[u8], mode: u32) -> (r: Result<usize, Errno>)
        requires
            old(self).wf(),
            dir < old(self).nodes@.len(),
            old(self).nodes@[dir as int].ops is Directory,
            old(self).nodes@.len() < usize::MAX,
        ensures
            final(self).wf(),
            !(mode & FILE_MODE_FMT_MASK == FILE_MODE_IFREG || mode & FILE_MODE_FMT_MASK
                == FILE_MODE_IFIFO || mode & FILE_MODE_FMT_MASK == FILE_MODE_IFBLK || mode
                & FILE_MODE_FMT_MASK == FILE_MODE_IFCHR) ==> r == Err::<usize, Errno>(
                Errno::EACCES,
            ) && *final(self) == *old(self),
            (mode & FILE_MODE_FMT_MASK == FILE_MODE_IFREG || mode & FILE_MODE_FMT_MASK
                == FILE_MODE_IFIFO || mode & FILE_MODE_FMT_MASK == FILE_MODE_IFBLK || mode
                & FILE_MODE_FMT_MASK == FILE_MODE_IFCHR) ==> ({
                let child = old(self).nodes@.len();
                &&& r == Ok::<usize, Errno>(child as usize)
                &&& final(self).nodes@.len() == child + 1
                &&& final(self).nodes@[child as int].mode == mode
                &&& final(self).nodes@[child as int].link_count == 1
                &&& final(self).nodes@[child as int].ops == (if mode & FILE_MODE_FMT_MASK
                    == FILE_MODE_IFREG {
                    NodeOps::RegularFile
                } else if mode & FILE_MODE_FMT_MASK == FILE_MODE_IFIFO {
                    NodeOps::Fifo
                } else {
                    NodeOps::Device
                })
                &&& final(self).nodes@[dir as int].children@.len() == old(self).nodes@[
                    dir as int].children@.len() + 1
                &&& final(self).nodes@[dir as int].children@.last().name@ == name@
                &&& final(self).nodes@[dir as int].children@.last().node == child
                &&& final(self).nodes@[dir as int].link_count == old(self).nodes@[
                    dir as int].link_count
                &&& forall|k: int|
                    0 <= k < old(self).nodes@[dir as int].children@.len()
                        ==> final(self).nodes@[dir as int].children@[k] == old(self).nodes@[
                        dir as int].children@[k]
                &&& forall|i: int|
                    0 <= i < child && i != dir ==> final(self).nodes@[i] == old(self).nodes@[i]
            }),
    {
        let fmt = mode & FILE_MODE_FMT_MASK;
        let ops: NodeOps = if fmt == FILE_MODE_IFREG {
            NodeOps::RegularFile
        } else if fmt == FILE_MODE_IFIFO {
            NodeOps::Fifo
        } else if fmt == FILE_MODE_IFBLK {
            NodeOps::Device
        } else if fmt == FILE_MODE_IFCHR {
            NodeOps::Device
        } else {
            return Err(Errno::EACCES);
        };
        let child = self.nodes.len();
        self.nodes.push(FsNode { mode, link_count: 1, children: Vec::new(), ops });
        let entry = DirEntry { name: slice_to_vec(name), node: child };
        let dirnode = &mut self.nodes[dir];
        dirnode.children.push(entry);
        Ok(child)
    }

    /// Create a symbolic link to `target` under `dir`.
    pub fn create_symlink(&mut self, dir: usize, name: &[u8], target: &[u8]) -> (r: usize)
        requires
            old(self).wf(),
            dir < old(self).nodes@.len(),
            old(self).nodes@[dir as int].ops is Directory,
            old(self).nodes@.len() < usize::MAX,
        ensures
            final(self).wf(),
            r == old(self).nodes@.len(),
            final(self).nodes@.len() == old(self).nodes@.len() + 1,
            final(self).nodes@[r as int].mode == FILE_MODE_IFLNK,
            final(self).nodes@[r as int].ops matches NodeOps::Symlink { target: t } && t@
                == target@,
            final(self).nodes@[dir as int].children@.len() == old(self).nodes@[
                dir as int].children@.len() + 1,
            final(self).nodes@[dir as int].children@.last().name@ == name@,
            final(self).nodes@[dir as int].children@.last().node == r,
            forall|k: int|
                0 <= k < old(self).nodes@[dir as int].children@.len() ==> final(self).nodes@[
                    dir as int].children@[k] == old(self).nodes@[dir as int].children@[k],
            forall|i: int|
                0 <= i < r && i != dir ==> final(self).nodes@[i] == old(self).nodes@[i],
    {
        let child = self.nodes.len();
        self.nodes.push(
            FsNode {
                mode: FILE_MODE_IFLNK,
                link_count: 1,
                children: Vec::new(),
                ops: NodeOps::Symlink { target: slice_to_vec(target) },
            },
        );
        let entry = DirEntry { name: slice_to_vec(name), node: child };
        let dirnode = &mut self.nodes[dir];
        dirnode.children.push(entry);
        child
    }

    /// Add a hard link named `name` in `dir` to the existing node
    /// `child`, which gains one link.
    pub fn link(&mut self, dir: usize, name: &[u8], child: usize)
        requires
            old(self).wf(),
            dir < old(self).nodes@.len(),
            child < old(self).nodes@.len(),
            old(self).nodes@[dir as int].ops is Directory,
            old(self).nodes@[child as int].link_count < u64::MAX,
        ensures
            final(self).wf(),
            final(self).nodes@.len() == old(self).nodes@.len(),
            final(self).nodes@[child as int].link_count == old(self).nodes@[
                child as int].link_count + 1,
            final(self).nodes@[dir as int].children@.len() == old(self).nodes@[
                dir as int].children@.len() + 1,
            final(self).nodes@[dir as int].children@.last().name@ == name@,
            final(self).nodes@[dir as int].children@.last().node == child,
            forall|k: int|
                0 <= k < old(self).nodes@[dir as int].children@.len() ==> final(self).nodes@[
                    dir as int].children@[k] == old(self).nodes@[dir as int].children@[k],
            forall|i: int|
                0 <= i < final(self).nodes@.len() && i != dir && i != child
                    ==> final(self).nodes@[i] == old(self).nodes@[i],
    {
        let entry = DirEntry { name: slice_to_vec(name), node: child };
        let dirnode = &mut self.nodes[dir];
        dirnode.children.push(entry);
        let childnode = &mut self.nodes[child];
        childnode.link_count = childnode.link_count + 1;
    }

    /// Unlink the entry named `name` from `dir`: the entry is removed,
    /// the child loses one link, and when the child is a directory the
    /// parent loses the link the child's parent entry held.
    pub fn unlink(&mut self, dir: usize, name: &[u8]) -> (r: Result<(), Errno>)
        requires
            old(self).wf(),
            dir < old(self).nodes@.len(),
            old(self).nodes@[dir as int].ops is Directory,
            old(self).nodes@[dir as int].link_count >= 1,
            forall|j: int|
                0 <= j < old(self).nodes@[dir as int].children@.len() ==> old(self).nodes@[(
                #[trigger] old(self).nodes@[dir as int].children@[j]).node as int].link_count
                    >= 1,
        ensures
            final(self).wf(),
            old(self).spec_find(dir as int, name@) is None ==> r == Err::<(), Errno>(
                Errno::ENOENT,
            ) && *final(self) == *old(self),
            old(self).spec_find(dir as int, name@) matches Some(j) ==> ({
                let c = old(self).nodes@[dir as int].children@[j].node as int;
                let was_dir = old(self).nodes@[c].ops is Directory;
                &&& r is Ok
                &&& final(self).nodes@[dir as int].children@ == old(self).nodes@[
                    dir as int].children@.remove(j)
                &&& final(self).nodes@[c].link_count == old(self).nodes@[c].link_count - 1
                &&& (c != dir && was_dir ==> final(self).nodes@[dir as int].link_count == old(
                    self,
                ).nodes@[dir as int].link_count - 1)
                &&& (c != dir && !was_dir ==> final(self).nodes@[dir as int].link_count == old(
                    self,
                ).nodes@[dir as int].link_count)
                &&& forall|i: int|
                    0 <= i < final(self).nodes@.len() && i != dir && i != c
                        ==> final(self).nodes@[i] == old(self).nodes@[i]
            }),
    {
        let found = self.find_entry(dir, name);
        let j = match found {
            Some(j) => j,
            None => {
                return Err(Errno::ENOENT);
            },
        };
        let child = self.nodes[dir].children[j].node;
        let child_is_dir = match self.nodes[child].ops {
            NodeOps::Directory => true,
            _ => false,
        };
        let dirnode = &mut self.nodes[dir];
        dirnode.children.remove(j);
        if child_is_dir && dir != child {
            let dirnode = &mut self.nodes[dir];
            dirnode.link_count = dirnode.link_count - 1;
        }
        let childnode = &mut self.nodes[child];
        childnode.link_count = childnode.link_count - 1;
        Ok(())
    }

    /// Look a name up through the node operations alone: this flavour
    /// keeps all children in the parent's cached entries, so the
    /// operations themselves always report `ENOENT`.
    pub fn lookup(&self, _dir: usize, _name: &[u8]) -> (r: Result<usize, Errno>)
        ensures
            r == Err::<usize, Errno>(Errno::ENOENT),
    {
        Err(Errno::ENOENT)
    }

    /// Open a node: directories, regular files, pipes and symlinks open;
    /// device nodes are not supported here.
    pub fn open(&self, node: usize) -> (r: Result<(), Errno>)
        requires
            node < self.nodes@.len(),
        ensures
            r is Err <==> self.nodes@[node as int].ops is Device,
            r is Err ==> r == Err::<(), Errno>(Errno::ENOSYS),
    {
        match self.nodes[node].ops {
            NodeOps::Device => {
                let d = DeviceNode;
                d.open()
            },
            _ => Ok(()),
        }
    }
}

impl TmpFs {
    /// A fresh file system holding only an empty root directory.
    pub fn new() -> (fs: FileSystem)
        ensures
            fs.wf(),
            fs.nodes@.len() == 1,
            fs.nodes@[0].ops is Directory,
            fs.nodes@[0].mode == FILE_MODE_IFDIR,
            fs.nodes@[0].link_count == 1,
            fs.nodes@[0].children@.len() == 0,
    {
        let mut nodes: Vec<FsNode> = Vec::new();
        nodes.push(
            FsNode {
                mode: FILE_MODE_IFDIR,
                link_count: 1,
                children: Vec::new(),
                ops: NodeOps::Directory,
            },
        );
        FileSystem { nodes }
    }
}

/// Copy a byte slice into an owned vector.
pub fn slice_to_vec(s: &[u8]) -> (v: Vec<u8>)
    ensures
        v@ == s@,
{
    let n = s.len();
    let mut v: Vec<u8> = Vec::new();
    let mut i: usize = 0;
    while i < n
        invariant
            0 <= i <= n,
            n == s@.len(),
            v@ == s@.take(i as int),
        decreases n - i,
    {
        let b = s[i];
        v.push(b);
        proof {
            assert(v@ =~= s@.take(i as int + 1));
        }
        i = i + 1;
    }
    proof {
        assert(s@.take(n as int) =~= s@);
    }
    v
}

/// Compare two byte slices for equality of their contents.
pub fn compare_bytes(a: &[u8], b: &[u8]) -> (r: bool)
    ensures
        r == (a@ == b@),
{
    if a.len() != b.len() {
        return false;
    }
    let n = a.len();
    let mut i: usize = 0;
    while i < n
        invariant
            0 <= i <= n,
            n == a@.len() == b@.len(),
            forall|k: int| 0 <= k < i ==> a@[k] == b@[k],
        decreases n - i,
    {
        if a[i] != b[i] {
            return false;
        }
        i = i + 1;
    }
    proof {
        assert(a@ =~= b@);
    }
    true
}

} // verus!
