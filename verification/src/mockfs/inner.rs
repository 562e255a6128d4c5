//! Files, directories and open handles.
use std::collections::HashMap;

use vstd::prelude::*;

use crate::mockfs::callback::Callback;
use crate::mockfs::tree::{
    child_of, find_child, lemma_planted, lemma_with_child, links, planted, sound, Child, Link, ROOT,
};
use crate::mockfs::registration::registration_fault;
use crate::paths::{absolute, segments, split};
use crate::text::{characters, texts};

verus! {

broadcast use vstd::std_specs::hash::group_hash_axioms;

/// What an inode is.
#[derive(Debug, Clone, Copy, PartialEq, Eq, Structural)]
pub enum FileType {
    Directory,
    RegularFile,
}

/// Attributes of an inode, but for its times.
#[derive(Debug, Clone, Copy, PartialEq, Eq, Structural)]
pub struct FileAttr {
    pub ino: u64,
    pub size: u64,
    pub blocks: u64,
    pub kind: FileType,
    pub perm: u16,
    pub nlink: u32,
    pub uid: u32,
    pub gid: u32,
    pub rdev: u32,
    pub blksize: u32,
    pub flags: u32,
}

/// An open file.
#[derive(Debug)]
pub struct OpenFile {
    ino: u64,
    // Generated on a read at offset 0 and reused for the rest of that pass, so a
    // follow-up read observes the same bytes.
    content: Option<Vec<u8>>,
}

/// One entry of a directory listing.
#[derive(Debug)]
pub struct Listed {
    pub ino: u64,
    pub name: String,
    pub kind: FileType,
}

/// An open file, as the inode and the content of the current pass.
pub struct OpenView {
    pub ino: u64,
    pub content: Option<Seq<u8>>,
}

/// One entry of a directory listing, as plain values.
pub struct EntryView {
    pub ino: u64,
    pub name: Seq<char>,
    pub kind: FileType,
}

impl View for OpenFile {
    type V = OpenView;

    closed spec fn view(&self) -> OpenView {
        OpenView {
            ino: self.ino,
            content: match self.content {
                Some(content) => Some(content@),
                None => None,
            },
        }
    }
}

impl View for Listed {
    type V = EntryView;

    open spec fn view(&self) -> EntryView {
        EntryView { ino: self.ino, name: self.name@, kind: self.kind }
    }
}

/// The entries of a listing as plain values.
pub open spec fn entries(list: Seq<Listed>) -> Seq<EntryView> {
    list.map_values(|entry: Listed| entry@)
}

/// The state of one filesystem. `C` is where file contents come from.
pub struct Inner<C> {
    children: Vec<Child>,
    callbacks: HashMap<u64, C>,
    handles: HashMap<u64, OpenFile>,
    next_handle: u64,
    direntry: HashMap<u64, Vec<Listed>>,
    next_direntry: u64,
}

/// The state of one filesystem, as plain values.
pub struct InnerView<C> {
    /// Directory entries, in the order in which they were made.
    pub tree: Seq<Link>,
    /// The source of each file's content.
    pub callbacks: Map<u64, C>,
    /// Open files.
    pub handles: Map<u64, OpenView>,
    /// The handle that the next open file gets.
    pub next_handle: u64,
    /// Open directories, each with its listing.
    pub listings: Map<u64, Seq<EntryView>>,
    /// The handle that the next open directory gets.
    pub next_direntry: u64,
}

impl<C> View for Inner<C> {
    type V = InnerView<C>;

    closed spec fn view(&self) -> InnerView<C> {
        InnerView {
            tree: links(self.children@),
            callbacks: self.callbacks@,
            handles: self.handles@.map_values(|file: OpenFile| file@),
            next_handle: self.next_handle,
            listings: self.direntry@.map_values(|list: Vec<Listed>| entries(list@)),
            next_direntry: self.next_direntry,
        }
    }
}

/// Segments that lead downward, without those that climb.
pub open spec fn downward(list: Seq<Seq<char>>) -> Seq<Seq<char>>
    decreases list.len(),
{
    if list.len() == 0 {
        Seq::empty()
    } else if list.last() == seq!['.', '.'] {
        downward(list.drop_last())
    } else {
        downward(list.drop_last()).push(list.last())
    }
}

/// The names that lead to a registered path.
pub open spec fn route(path: Seq<char>) -> Seq<Seq<char>> {
    downward(segments(path))
}

proof fn lemma_downward_shrinks(list: Seq<Seq<char>>)
    ensures
        downward(list).len() <= list.len(),
    decreases list.len(),
{
    if list.len() > 0 {
        lemma_downward_shrinks(list.drop_last());
    }
}

proof fn lemma_downward_without_climbs(list: Seq<Seq<char>>)
    requires
        !list.contains(seq!['.', '.']),
    ensures
        downward(list) == list,
    decreases list.len(),
{
    if list.len() > 0 {
        let rest = list.drop_last();
        assert(list.contains(list.last()));
        assert forall|piece: Seq<char>| rest.contains(piece) implies list.contains(piece) by {
            let i = choose|i: int| 0 <= i < rest.len() && rest[i] == piece;
            assert(list[i] == piece);
        }
        lemma_downward_without_climbs(rest);
        assert(rest.push(list.last()) == list);
    }
}

/// A path that may be registered is reached by its segments.
pub proof fn law_valid_path_is_reached_by_its_segments(path: Seq<char>)
    requires
        registration_fault(path) is None,
    ensures
        route(path) == segments(path),
{
    lemma_downward_without_climbs(segments(path));
}

impl<C> InnerView<C> {
    /// A filesystem with nothing but its root.
    pub open spec fn bare() -> InnerView<C> {
        InnerView {
            tree: Seq::empty(),
            callbacks: Map::empty(),
            handles: Map::empty(),
            next_handle: 1,
            listings: Map::empty(),
            next_direntry: 1,
        }
    }

    /// The tree is sound, handles were given out in order, and an open file has a
    /// source.
    pub open spec fn consistent(self) -> bool {
        &&& sound(self.tree)
        &&& forall|fh: u64| #[trigger]
            self.handles.contains_key(fh) ==> fh < self.next_handle && self.callbacks.contains_key(
                self.handles[fh].ino,
            )
        &&& forall|fh: u64| #[trigger] self.listings.contains_key(fh) ==> fh < self.next_direntry
    }

    /// Whether an inode is a file.
    pub open spec fn file(self, ino: u64) -> bool {
        self.callbacks.contains_key(ino)
    }

    /// Whether anything stands in an inode.
    pub open spec fn inhabited(self, ino: u64) -> bool {
        exists|i: int| 0 <= i < self.tree.len() && (#[trigger] self.tree[i]).0 == ino
    }

    /// Whether an inode is a directory. A file hides what stands in it.
    pub open spec fn dir(self, ino: u64) -> bool {
        ino == ROOT || self.inhabited(ino) && !self.file(ino)
    }

    /// What an inode is.
    pub open spec fn kind(self, ino: u64) -> FileType {
        if self.dir(ino) {
            FileType::Directory
        } else {
            FileType::RegularFile
        }
    }

    /// The attributes of an inode. The size is zero, as that of a dynamic file.
    pub open spec fn attr(self, ino: u64) -> Option<FileAttr> {
        if self.file(ino) || self.dir(ino) {
            Some(
                FileAttr {
                    ino,
                    size: 0,
                    blocks: 1,
                    kind: self.kind(ino),
                    perm: if self.dir(ino) {
                        0o755
                    } else {
                        0o444
                    },
                    nlink: if self.dir(ino) {
                        2
                    } else {
                        1
                    },
                    uid: 0,
                    gid: 0,
                    rdev: 0,
                    blksize: 4096,
                    flags: 0,
                },
            )
        } else {
            None
        }
    }

    /// The directory that an inode stands in.
    pub open spec fn parent_of(self, ino: u64) -> Option<u64> {
        if 2 <= ino < self.tree.len() + 2 {
            Some(self.tree[ino - 2].0)
        } else {
            None
        }
    }

    /// What stands in an inode, among the first `n` entries.
    pub open spec fn inhabitants(self, ino: u64, n: nat) -> Seq<EntryView>
        decreases n,
    {
        if n == 0 {
            Seq::empty()
        } else {
            let before = self.inhabitants(ino, (n - 1) as nat);
            if self.tree[n - 1].0 == ino {
                before.push(
                    EntryView {
                        ino: (n + 1) as u64,
                        name: self.tree[n - 1].1,
                        kind: self.kind((n + 1) as u64),
                    },
                )
            } else {
                before
            }
        }
    }

    /// The listing of a directory, by inode: its parent, itself, what stands in it.
    pub open spec fn listing(self, ino: u64) -> Seq<EntryView> {
        let own = EntryView { ino, name: seq!['.'], kind: FileType::Directory };
        let above = match self.parent_of(ino) {
            Some(parent) => seq![
                EntryView { ino: parent, name: seq!['.', '.'], kind: FileType::Directory },
            ],
            None => Seq::empty(),
        };
        above.push(own) + self.inhabitants(ino, self.tree.len())
    }

    /// The filesystem once a path has a source.
    pub open spec fn registered(self, path: Seq<char>, callback: C) -> InnerView<C> {
        let (tree, ino) = planted(self.tree, route(path));
        InnerView { tree, callbacks: self.callbacks.insert(ino, callback), ..self }
    }

    /// The filesystem once a file was opened.
    pub open spec fn opened(self, ino: u64) -> InnerView<C> {
        InnerView {
            handles: self.handles.insert(self.next_handle, OpenView { ino, content: None }),
            next_handle: (self.next_handle + 1) as u64,
            ..self
        }
    }

    /// The filesystem once a directory was opened.
    pub open spec fn opened_dir(self, ino: u64) -> InnerView<C> {
        InnerView {
            listings: self.listings.insert(self.next_direntry, self.listing(ino)),
            next_direntry: (self.next_direntry + 1) as u64,
            ..self
        }
    }

    /// Whether a read generates new content: at the start of a file, and where
    /// nothing was generated yet.
    pub open spec fn regenerates(self, fh: u64, offset: u64) -> bool {
        offset == 0 || self.handles[fh].content is None
    }
}

impl<C: Callback> InnerView<C> {
    /// Reading through `fh` at `offset` gives the file's content `bytes`, and leaves
    /// the filesystem as `after`.
    pub open spec fn read_gives(
        self,
        fh: u64,
        offset: u64,
        bytes: Seq<u8>,
        after: InnerView<C>,
    ) -> bool {
        let ino = self.handles[fh].ino;
        if self.regenerates(fh, offset) {
            &&& after.callbacks.contains_key(ino)
            &&& self.callbacks[ino].gives(bytes, after.callbacks[ino])
            &&& after == (InnerView {
                callbacks: self.callbacks.insert(ino, after.callbacks[ino]),
                handles: self.handles.insert(fh, OpenView { ino, content: Some(bytes) }),
                ..self
            })
        } else {
            self.handles[fh].content == Some(bytes) && after == self
        }
    }
}

fn climbs_up(name: &str) -> (r: bool)
    ensures
        r == (name@ == seq!['.', '.']),
{
    let chars: Vec<char> = characters(name);
    let r: bool = chars.len() == 2 && chars[0] == '.' && chars[1] == '.';
    proof {
        if r {
            assert(name@ =~= seq!['.', '.']);
        }
    }
    r
}

proof fn lemma_push_link(children: Seq<Child>, child: Child)
    ensures
        links(children.push(child)) == links(children).push((child.parent, child.name@)),
{
    assert(links(children.push(child)) == links(children).push((child.parent, child.name@)));
}

impl<C: Callback> Inner<C> {
    /// The state is one that the operations lead to.
    pub open spec fn wf(&self) -> bool {
        self@.consistent()
    }

    /// A filesystem with nothing but its root.
    pub fn new() -> (inner: Inner<C>)
        ensures
            inner.wf(),
            inner@ == InnerView::<C>::bare(),
    {
        let inner = Inner {
            children: Vec::new(),
            callbacks: HashMap::new(),
            handles: HashMap::new(),
            next_handle: 1,
            direntry: HashMap::new(),
            next_direntry: 1,
        };
        proof {
            assert(inner@.tree =~= Seq::<Link>::empty());
            assert(inner@.callbacks =~= Map::<u64, C>::empty());
            assert(inner@.handles =~= Map::<u64, OpenView>::empty());
            assert(inner@.listings =~= Map::<u64, Seq<EntryView>>::empty());
        }
        inner
    }

    /// Give a path a source. Directories on the way are made as needed; a path that
    /// already has a source gets the new one.
    pub fn register_callback(&mut self, name: &str, callback: C)
        requires
            old(self).wf(),
            absolute(name@),
            old(self)@.tree.len() + segments(name@).len() < u64::MAX - 1,
        ensures
            final(self).wf(),
            final(self)@ == old(self)@.registered(name@, callback),
    {
        let parts: Vec<String> = split(name);
        let ghost list = segments(name@);
        let ghost tree = self@.tree;
        let ghost before = self@;
        let mut parent: u64 = ROOT;
        let mut i: usize = 0;
        assert(list.take(0) == Seq::<Seq<char>>::empty());
        while i < parts.len()
            invariant
                i <= parts@.len(),
                texts(parts@) == list,
                sound(tree),
                tree.len() + list.len() < u64::MAX - 1,
                before.tree == tree,
                (self@.tree, parent) == planted(tree, downward(list.take(i as int))),
                self@ == (InnerView { tree: self@.tree, ..before }),
            decreases parts@.len() - i,
        {
            let ghost walked = downward(list.take(i as int));
            proof {
                assert(list.take(i + 1).drop_last() == list.take(i as int));
                assert(list.take(i + 1).last() == parts@[i as int]@);
                lemma_downward_shrinks(list.take(i as int));
                lemma_planted(tree, walked);
            }
            let part = &parts[i];
            if !climbs_up(part.as_str()) {
                let ghost here = self@.tree;
                proof {
                    let grown = walked.push(part@);
                    assert(grown.drop_last() == walked);
                    lemma_with_child(here, parent, part@);
                }
                match find_child(&self.children, parent, part.as_str()) {
                    Some(ino) => {
                        parent = ino;
                    },
                    None => {
                        let made: u64 = self.children.len() as u64 + 2;
                        let child = Child { parent, name: part.clone() };
                        proof {
                            lemma_push_link(self.children@, child);
                        }
                        self.children.push(child);
                        parent = made;
                    },
                }
            }
            i += 1;
        }
        proof {
            assert(list.take(list.len() as int) == list);
            lemma_downward_shrinks(list);
            lemma_planted(tree, route(name@));
        }
        self.callbacks.insert(parent, callback);
    }

    /// Whether there are inode numbers for a path.
    pub fn has_room(&self, name: &str) -> (r: bool)
        ensures
            r == (self@.tree.len() + segments(name@).len() < u64::MAX - 1),
    {
        let parts: Vec<String> = split(name);
        assert(parts@.len() == texts(parts@).len());
        let needed: u64 = parts.len() as u64;
        let used: u64 = self.children.len() as u64;
        needed < u64::MAX - 1 && used < u64::MAX - 1 - needed
    }

    /// Whether there is a handle for one more file.
    pub fn can_open(&self) -> (r: bool)
        ensures
            r == (self@.next_handle < u64::MAX),
    {
        self.next_handle < u64::MAX
    }

    /// Whether there is a handle for one more directory.
    pub fn can_opendir(&self) -> (r: bool)
        ensures
            r == (self@.next_direntry < u64::MAX),
    {
        self.next_direntry < u64::MAX
    }

    /// The inode of a name in a directory.
    pub fn lookup(&self, parent: u64, name: &str) -> (ino: Option<u64>)
        requires
            self.wf(),
        ensures
            ino == child_of(self@.tree, parent, name@),
    {
        find_child(&self.children, parent, name)
    }

    /// Whether an inode is a file.
    pub fn is_file(&self, ino: u64) -> (r: bool)
        ensures
            r == self@.file(ino),
    {
        self.callbacks.contains_key(&ino)
    }

    fn is_inhabited(&self, ino: u64) -> (r: bool)
        ensures
            r == self@.inhabited(ino),
    {
        let mut i: usize = 0;
        while i < self.children.len()
            invariant
                i <= self.children@.len(),
                forall|j: int| 0 <= j < i ==> (#[trigger] self@.tree[j]).0 != ino,
            decreases self.children@.len() - i,
        {
            assert(self@.tree[i as int].0 == self.children@[i as int].parent);
            if self.children[i].parent == ino {
                return true;
            }
            i += 1;
        }
        false
    }

    /// Whether an inode is a directory.
    pub fn is_dir(&self, ino: u64) -> (r: bool)
        ensures
            r == self@.dir(ino),
    {
        ino == ROOT || (self.is_inhabited(ino) && !self.is_file(ino))
    }

    /// What an inode is.
    pub fn file_type(&self, ino: u64) -> (kind: FileType)
        ensures
            kind == self@.kind(ino),
    {
        if self.is_dir(ino) {
            FileType::Directory
        } else {
            FileType::RegularFile
        }
    }

    /// The directory that an inode stands in.
    pub fn parent(&self, ino: u64) -> (parent: Option<u64>)
        requires
            self.wf(),
        ensures
            parent == self@.parent_of(ino),
    {
        let n: usize = self.children.len();
        if ino >= 2 && ino - 2 < n as u64 {
            let at: usize = (ino - 2) as usize;
            assert(self@.tree[at as int].0 == self.children@[at as int].parent);
            Some(self.children[at].parent)
        } else {
            None
        }
    }

    /// The attributes of an inode. This must not run a callback: that would consume
    /// a sequence.
    pub fn attr_for(&self, ino: u64) -> (attr: Option<FileAttr>)
        ensures
            attr == self@.attr(ino),
    {
        if !self.is_file(ino) && !self.is_dir(ino) {
            return None;
        }
        let dir: bool = self.is_dir(ino);
        Some(
            FileAttr {
                ino,
                size: 0,
                blocks: 1,
                kind: self.file_type(ino),
                perm: if dir {
                    0o755
                } else {
                    0o444
                },
                nlink: if dir {
                    2
                } else {
                    1
                },
                uid: 0,
                gid: 0,
                rdev: 0,
                blksize: 4096,
                flags: 0,
            },
        )
    }

    /// Open a file.
    pub fn open(&mut self, ino: u64) -> (fh: Option<u64>)
        requires
            old(self).wf(),
            old(self)@.next_handle < u64::MAX,
        ensures
            final(self).wf(),
            fh is Some <==> old(self)@.file(ino),
            fh is None ==> final(self)@ == old(self)@,
            fh matches Some(fh) ==> fh == old(self)@.next_handle && final(self)@ == old(
                self,
            )@.opened(ino),
    {
        if !self.callbacks.contains_key(&ino) {
            return None;
        }
        let fh: u64 = self.next_handle;
        self.next_handle = self.next_handle + 1;
        let file = OpenFile { ino, content: None };
        self.handles.insert(fh, file);
        proof {
            assert(self@.handles =~= old(self)@.handles.insert(
                fh,
                OpenView { ino, content: None },
            ));
            assert(self@.listings == old(self)@.listings);
            assert forall|h: u64| #[trigger] self@.handles.contains_key(h) implies h
                < self@.next_handle && self@.callbacks.contains_key(self@.handles[h].ino) by {
                if h != fh {
                    assert(old(self)@.handles.contains_key(h));
                }
            }
        }
        Some(fh)
    }

    fn add_inhabitants(&self, ino: u64, list: &mut Vec<Listed>)
        requires
            self.wf(),
        ensures
            entries(final(list)@) == entries(old(list)@) + self@.inhabitants(
                ino,
                self@.tree.len(),
            ),
    {
        let ghost first = entries(list@);
        let mut i: usize = 0;
        assert(first + self@.inhabitants(ino, 0) == first);
        while i < self.children.len()
            invariant
                i <= self.children@.len(),
                self.wf(),
                entries(list@) == first + self@.inhabitants(ino, i as nat),
            decreases self.children@.len() - i,
        {
            let ghost before = list@;
            assert(self@.tree[i as int] == (
                self.children@[i as int].parent,
                self.children@[i as int].name@,
            ));
            if self.children[i].parent == ino {
                let number: u64 = i as u64 + 2;
                let entry = Listed {
                    ino: number,
                    name: self.children[i].name.clone(),
                    kind: self.file_type(number),
                };
                list.push(entry);
                proof {
                    assert(entries(list@) =~= entries(before).push(entry@));
                    assert(first + self@.inhabitants(ino, (i + 1) as nat) =~= (first
                        + self@.inhabitants(ino, i as nat)).push(entry@));
                }
            }
            i += 1;
        }
    }

    /// Open a directory: fix its listing, by inode.
    pub fn opendir(&mut self, ino: u64) -> (fh: Option<u64>)
        requires
            old(self).wf(),
            old(self)@.next_direntry < u64::MAX,
        ensures
            final(self).wf(),
            fh == Some(old(self)@.next_direntry),
            final(self)@ == old(self)@.opened_dir(ino),
    {
        let fh: u64 = self.next_direntry;
        let mut list: Vec<Listed> = Vec::new();
        if let Some(parent) = self.parent(ino) {
            let name: String = "..".to_owned();
            proof {
                reveal_strlit("..");
                assert(name@ =~= seq!['.', '.']);
            }
            list.push(Listed { ino: parent, name, kind: FileType::Directory });
        }
        let name: String = ".".to_owned();
        proof {
            reveal_strlit(".");
            assert(name@ =~= seq!['.']);
        }
        list.push(Listed { ino, name, kind: FileType::Directory });
        self.add_inhabitants(ino, &mut list);
        assert(entries(list@) =~= self@.listing(ino));
        self.next_direntry = self.next_direntry + 1;
        self.direntry.insert(fh, list);
        proof {
            assert(self@.listings =~= old(self)@.listings.insert(fh, old(self)@.listing(ino)));
        }
        Some(fh)
    }

    /// Read through an open file: the whole content of the current pass. A read at
    /// the start begins a new pass.
    pub fn read(&mut self, fh: u64, offset: u64) -> (content: Option<&Vec<u8>>)
        requires
            old(self).wf(),
        ensures
            final(self).wf(),
            content is Some <==> old(self)@.handles.contains_key(fh),
            content is None ==> final(self)@ == old(self)@,
            content matches Some(bytes) ==> old(self)@.read_gives(
                fh,
                offset,
                bytes@,
                final(self)@,
            ),
    {
        let (ino, fresh): (u64, bool) = match self.handles.get(&fh) {
            Some(file) => (file.ino, offset == 0 || file.content.is_none()),
            None => {
                return None;
            },
        };
        proof {
            assert(self@.handles.contains_key(fh));
        }
        if fresh {
            let mut callback: C = match self.callbacks.remove(&ino) {
                Some(callback) => callback,
                None => {
                    return None;
                },
            };
            let content: Vec<u8> = callback.generate();
            let ghost bytes = content@;
            self.callbacks.insert(ino, callback);
            self.handles.insert(fh, OpenFile { ino, content: Some(content) });
            proof {
                assert(self@.callbacks =~= old(self)@.callbacks.insert(ino, callback));
                assert(self@.handles =~= old(self)@.handles.insert(
                    fh,
                    OpenView { ino, content: Some(bytes) },
                ));
                assert(self@.listings == old(self)@.listings);
                assert forall|h: u64| #[trigger] self@.handles.contains_key(h) implies h
                    < self@.next_handle && self@.callbacks.contains_key(self@.handles[h].ino) by {
                    if h != fh {
                        assert(old(self)@.handles.contains_key(h));
                    }
                }
            }
        }
        match self.handles.get(&fh) {
            Some(file) => file.content.as_ref(),
            None => None,
        }
    }

    /// The listing of an open directory.
    pub fn readdir(&self, fh: u64) -> (list: Option<&Vec<Listed>>)
        ensures
            list is Some <==> self@.listings.contains_key(fh),
            list matches Some(list) ==> entries(list@) == self@.listings[fh],
    {
        self.direntry.get(&fh)
    }

    /// Close a file.
    pub fn release(&mut self, fh: u64)
        requires
            old(self).wf(),
        ensures
            final(self).wf(),
            final(self)@ == (InnerView { handles: old(self)@.handles.remove(fh), ..old(self)@ }),
    {
        self.handles.remove(&fh);
        assert(self@.handles =~= old(self)@.handles.remove(fh));
    }

    /// Close a directory.
    pub fn releasedir(&mut self, fh: u64)
        requires
            old(self).wf(),
        ensures
            final(self).wf(),
            final(self)@ == (InnerView { listings: old(self)@.listings.remove(fh), ..old(self)@ }),
    {
        self.direntry.remove(&fh);
        assert(self@.listings =~= old(self)@.listings.remove(fh));
    }
}

} // verus!
