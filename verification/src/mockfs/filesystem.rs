//! What the kernel asks of a mounted filesystem.
use vstd::prelude::*;

use crate::mockfs::callback::{Callback, Playlist};
use crate::mockfs::inner::{entries, EntryView, FileAttr, FileType, Inner, InnerView};
use crate::mockfs::registration::{
    invalid_path_text, registration_fault, validate_registration_path, RegisterError,
};
use crate::mockfs::tree::child_of;
use crate::paths::{absolute, segments};

verus! {

/// Why an operation is refused.
#[derive(Debug, Clone, Copy, PartialEq, Eq, Structural)]
pub enum Errno {
    /// Something is no directory.
    NotDir,
    /// There is no such thing.
    NoEnt,
}

/// One entry of a directory, as handed to the kernel.
#[derive(Debug)]
pub struct DirReply {
    pub ino: u64,
    /// The offset of what comes after this entry.
    pub next: u64,
    pub kind: FileType,
    pub name: String,
}

impl DirReply {
    /// This is the entry at place `at`.
    pub open spec fn shows(self, entry: EntryView, at: int) -> bool {
        self.ino == entry.ino && self.kind == entry.kind && self.name@ == entry.name && self.next
            == at + 1
    }
}

/// The part of a file that a read of `size` bytes at `offset` sees.
pub open spec fn window(bytes: Seq<u8>, offset: nat, size: nat) -> Seq<u8> {
    let start = if offset < bytes.len() {
        offset
    } else {
        bytes.len()
    };
    let end = if offset + size < bytes.len() {
        offset + size
    } else {
        bytes.len()
    };
    bytes.subrange(start as int, end as int)
}

/// What a lookup answers. A name that is no text has no entry.
pub open spec fn looked_up<C>(state: InnerView<C>, parent: u64, name: Option<Seq<char>>) -> Result<
    FileAttr,
    Errno,
> {
    if !state.dir(parent) {
        Err(Errno::NotDir)
    } else {
        match name {
            None => Err(Errno::NoEnt),
            Some(name) => match child_of(state.tree, parent, name) {
                None => Err(Errno::NoEnt),
                Some(ino) => match state.attr(ino) {
                    None => Err(Errno::NoEnt),
                    Some(attr) => Ok(attr),
                },
            },
        }
    }
}

/// A filesystem that can be mounted.
pub struct MockFs<C> {
    inner: Inner<C>,
}

impl<C> View for MockFs<C> {
    type V = InnerView<C>;

    closed spec fn view(&self) -> InnerView<C> {
        self.inner@
    }
}

fn copied_part(bytes: &Vec<u8>, start: usize, end: usize) -> (part: Vec<u8>)
    requires
        start <= end <= bytes@.len(),
    ensures
        part@ == bytes@.subrange(start as int, end as int),
{
    let mut part: Vec<u8> = Vec::new();
    let mut i: usize = start;
    while i < end
        invariant
            start <= i <= end <= bytes@.len(),
            part@ == bytes@.subrange(start as int, i as int),
        decreases end - i,
    {
        part.push(bytes[i]);
        i += 1;
    }
    part
}

impl<C: Callback> MockFs<C> {
    /// The state is one that the operations lead to.
    pub open spec fn wf(&self) -> bool {
        self@.consistent()
    }

    /// A filesystem with nothing but its root.
    pub fn new() -> (fs: MockFs<C>)
        ensures
            fs.wf(),
            fs@ == InnerView::<C>::bare(),
    {
        MockFs { inner: Inner::new() }
    }

    /// Give a path a source.
    pub fn register_callback(&mut self, name: &str, callback: C)
        requires
            old(self).wf(),
            absolute(name@),
            old(self)@.tree.len() + segments(name@).len() < u64::MAX - 1,
        ensures
            final(self).wf(),
            final(self)@ == old(self)@.registered(name@, callback),
    {
        self.inner.register_callback(name, callback);
    }

    /// Whether there are inode numbers for a path.
    pub fn has_room(&self, name: &str) -> (r: bool)
        ensures
            r == (self@.tree.len() + segments(name@).len() < u64::MAX - 1),
    {
        self.inner.has_room(name)
    }

    /// Whether there is a handle for one more file.
    pub fn can_open(&self) -> (r: bool)
        ensures
            r == (self@.next_handle < u64::MAX),
    {
        self.inner.can_open()
    }

    /// Whether there is a handle for one more directory.
    pub fn can_opendir(&self) -> (r: bool)
        ensures
            r == (self@.next_direntry < u64::MAX),
    {
        self.inner.can_opendir()
    }

    /// Find a name in a directory. A name that is no text is given as nothing.
    pub fn lookup(&self, parent: u64, name: Option<&str>) -> (r: Result<FileAttr, Errno>)
        requires
            self.wf(),
        ensures
            r == looked_up(
                self@,
                parent,
                match name {
                    Some(name) => Some(name@),
                    None => None,
                },
            ),
    {
        if !self.inner.is_dir(parent) {
            return Err(Errno::NotDir);
        }
        let name: &str = match name {
            Some(name) => name,
            None => {
                return Err(Errno::NoEnt);
            },
        };
        let ino: u64 = match self.inner.lookup(parent, name) {
            Some(ino) => ino,
            None => {
                return Err(Errno::NoEnt);
            },
        };
        self.getattr(ino)
    }

    /// Tell the attributes of an inode.
    pub fn getattr(&self, ino: u64) -> (r: Result<FileAttr, Errno>)
        ensures
            r == match self@.attr(ino) {
                Some(attr) => Ok::<FileAttr, Errno>(attr),
                None => Err(Errno::NoEnt),
            },
    {
        match self.inner.attr_for(ino) {
            Some(attr) => Ok(attr),
            None => Err(Errno::NoEnt),
        }
    }

    /// Open a file.
    pub fn open(&mut self, ino: u64) -> (r: Result<u64, Errno>)
        requires
            old(self).wf(),
            old(self)@.next_handle < u64::MAX,
        ensures
            final(self).wf(),
            r == if old(self)@.file(ino) {
                Ok::<u64, Errno>(old(self)@.next_handle)
            } else {
                Err(Errno::NoEnt)
            },
            final(self)@ == if old(self)@.file(ino) {
                old(self)@.opened(ino)
            } else {
                old(self)@
            },
    {
        if !self.inner.is_file(ino) {
            return Err(Errno::NoEnt);
        }
        match self.inner.open(ino) {
            Some(fh) => Ok(fh),
            None => Err(Errno::NoEnt),
        }
    }

    /// Open a directory.
    pub fn opendir(&mut self, ino: u64) -> (r: Result<u64, Errno>)
        requires
            old(self).wf(),
            old(self)@.next_direntry < u64::MAX,
        ensures
            final(self).wf(),
            r == if old(self)@.dir(ino) {
                Ok::<u64, Errno>(old(self)@.next_direntry)
            } else {
                Err(Errno::NotDir)
            },
            final(self)@ == if old(self)@.dir(ino) {
                old(self)@.opened_dir(ino)
            } else {
                old(self)@
            },
    {
        if !self.inner.is_dir(ino) {
            return Err(Errno::NotDir);
        }
        match self.inner.opendir(ino) {
            Some(fh) => Ok(fh),
            None => Err(Errno::NoEnt),
        }
    }

    /// Read from an open file.
    pub fn read(&mut self, ino: u64, fh: u64, offset: u64, size: u32) -> (r: Result<
        Vec<u8>,
        Errno,
    >)
        requires
            old(self).wf(),
            offset + size <= usize::MAX,
        ensures
            final(self).wf(),
            r is Ok <==> old(self)@.file(ino) && old(self)@.handles.contains_key(fh),
            r matches Err(errno) ==> errno == Errno::NoEnt && final(self)@ == old(self)@,
            r matches Ok(data) ==> {
                let bytes = final(self)@.handles[fh].content->0;
                &&& final(self)@.handles[fh].content is Some
                &&& old(self)@.read_gives(fh, offset, bytes, final(self)@)
                &&& data@ == window(bytes, offset as nat, size as nat)
                &&& data@.len() == if offset >= bytes.len() {
                    0
                } else if size <= bytes.len() - offset {
                    size as int
                } else {
                    bytes.len() - offset
                }
                &&& forall|k: int|
                    0 <= k < data@.len() ==> #[trigger] data@[k] == bytes[offset + k]
            },
    {
        if !self.inner.is_file(ino) {
            return Err(Errno::NoEnt);
        }
        match self.inner.read(fh, offset) {
            None => Err(Errno::NoEnt),
            Some(content) => {
                let len: usize = content.len();
                let from: usize = offset as usize;
                let to: usize = from + size as usize;
                let start: usize = if from < len {
                    from
                } else {
                    len
                };
                let end: usize = if to < len {
                    to
                } else {
                    len
                };
                Ok(copied_part(content, start, end))
            },
        }
    }

    /// List an open directory from an offset on.
    pub fn readdir(&self, ino: u64, fh: u64, offset: u64) -> (r: Result<Vec<DirReply>, Errno>)
        ensures
            !self@.dir(ino) ==> r is Err && r->Err_0 == Errno::NotDir,
            self@.dir(ino) && !self@.listings.contains_key(fh) ==> r is Err && r->Err_0
                == Errno::NoEnt,
            self@.dir(ino) && self@.listings.contains_key(fh) ==> {
                let list = self@.listings[fh];
                &&& r is Ok
                &&& r->Ok_0@.len() == if offset < list.len() {
                    list.len() - offset
                } else {
                    0
                }
                &&& forall|i: int|
                    0 <= i < r->Ok_0@.len() ==> (#[trigger] r->Ok_0@[i]).shows(
                        list[offset + i],
                        offset + i,
                    )
                &&& forall|i: int|
                    0 <= i < r->Ok_0@.len() ==> (#[trigger] r->Ok_0@[i]).next == offset + i + 1
                        && r->Ok_0@[i].ino == list[offset + i].ino && r->Ok_0@[i].kind
                        == list[offset + i].kind && r->Ok_0@[i].name@ == list[offset + i].name
            },
    {
        if !self.inner.is_dir(ino) {
            return Err(Errno::NotDir);
        }
        let list = match self.inner.readdir(fh) {
            Some(list) => list,
            None => {
                return Err(Errno::NoEnt);
            },
        };
        let mut replies: Vec<DirReply> = Vec::new();
        let n: usize = list.len();
        if offset >= n as u64 {
            return Ok(replies);
        }
        let ghost views = self@.listings[fh];
        let mut i: usize = offset as usize;
        while i < n
            invariant
                offset <= i <= n,
                n == list@.len(),
                views == entries(list@),
                replies@.len() == i - offset,
                forall|j: int|
                    0 <= j < replies@.len() ==> (#[trigger] replies@[j]).shows(
                        views[offset + j],
                        offset + j,
                    ),
            decreases n - i,
        {
            let entry = &list[i];
            assert(views[i as int] == entry@);
            replies.push(
                DirReply {
                    ino: entry.ino,
                    next: i as u64 + 1,
                    kind: entry.kind,
                    name: entry.name.clone(),
                },
            );
            i += 1;
        }
        Ok(replies)
    }

    /// Close a file.
    pub fn release(&mut self, fh: u64)
        requires
            old(self).wf(),
        ensures
            final(self).wf(),
            final(self)@ == (InnerView { handles: old(self)@.handles.remove(fh), ..old(self)@ }),
    {
        self.inner.release(fh);
    }

    /// Close a directory.
    pub fn releasedir(&mut self, fh: u64)
        requires
            old(self).wf(),
        ensures
            final(self).wf(),
            final(self)@ == (InnerView { listings: old(self)@.listings.remove(fh), ..old(self)@ }),
    {
        self.inner.releasedir(fh);
    }
}

impl MockFs<Playlist> {
    /// Let a path play prepared contents.
    pub fn register_iterator(&mut self, name: &str, values: Playlist)
        requires
            old(self).wf(),
            absolute(name@),
            old(self)@.tree.len() + segments(name@).len() < u64::MAX - 1,
        ensures
            final(self).wf(),
            final(self)@ == old(self)@.registered(name@, values),
    {
        self.register_callback(name, values);
    }

    /// Let a path have the same content for ever.
    pub fn register_static_bytes(&mut self, name: &str, value: Vec<u8>) -> (r: Result<
        (),
        RegisterError,
    >)
        requires
            old(self).wf(),
            old(self)@.tree.len() + segments(name@).len() < u64::MAX - 1,
        ensures
            final(self).wf(),
            r is Ok <==> registration_fault(name@) is None,
            r is Ok ==> final(self)@ == old(self)@.registered(name@, Playlist::Always(value)),
            r matches Err(error) ==> final(self)@ == old(self)@ && error.message@
                == invalid_path_text(name@, registration_fault(name@)->0),
    {
        match validate_registration_path(name) {
            Err(error) => Err(error),
            Ok(_) => {
                self.register_iterator(name, Playlist::Always(value));
                Ok(())
            },
        }
    }

    /// Let a path have the given contents, one after the other, then none.
    pub fn register_sequence_bytes(&mut self, name: &str, values: Vec<Vec<u8>>) -> (r: Result<
        (),
        RegisterError,
    >)
        requires
            old(self).wf(),
            old(self)@.tree.len() + segments(name@).len() < u64::MAX - 1,
        ensures
            final(self).wf(),
            r is Ok <==> registration_fault(name@) is None,
            r is Ok ==> final(self)@ == old(self)@.registered(
                name@,
                (Playlist::Sequence { values, next: 0 }),
            ),
            r matches Err(error) ==> final(self)@ == old(self)@ && error.message@
                == invalid_path_text(name@, registration_fault(name@)->0),
    {
        match validate_registration_path(name) {
            Err(error) => Err(error),
            Ok(_) => {
                self.register_iterator(name, Playlist::Sequence { values, next: 0 });
                Ok(())
            },
        }
    }
}

} // verus!
