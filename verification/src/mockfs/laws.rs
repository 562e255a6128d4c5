//! What holds of a mounted filesystem across operations.
use vstd::prelude::*;

use crate::mockfs::callback::{Callback, Playlist};
use crate::mockfs::filesystem::{looked_up, window, Errno};
use crate::mockfs::inner::{
    downward, entries, route, EntryView, FileAttr, FileType, InnerView, Listed,
};
use crate::mockfs::tree::{
    child_of, law_inodes_tell_paths_apart, law_planted_path_resolves,
    law_planting_is_idempotent, law_resolution_is_stable, lemma_child_of_place,
    lemma_child_persists, lemma_place_of_child, lemma_planted, planted, resolved, sound, Link, ROOT,
};
use crate::paths::segments;

verus! {

/// A registered path leads to a file, and the file has the source that was
/// registered.
pub proof fn law_registered_path_is_a_file<C>(state: InnerView<C>, path: Seq<char>, callback: C)
    requires
        state.consistent(),
        state.tree.len() + route(path).len() < u64::MAX - 1,
    ensures
        ({
            let after = state.registered(path, callback);
            let ino = resolved(after.tree, route(path));
            &&& after.consistent()
            &&& ino is Some
            &&& after.file(ino->0)
            &&& after.callbacks[ino->0] == callback
            &&& ino->0 == ROOT <==> route(path).len() == 0
        }),
{
    let after = state.registered(path, callback);
    lemma_planted(state.tree, route(path));
    law_planted_path_resolves(state.tree, route(path));
    assert forall|fh: u64| #[trigger] after.handles.contains_key(fh) implies fh < after.next_handle
        && after.callbacks.contains_key(after.handles[fh].ino) by {
        assert(state.handles.contains_key(fh));
    }
}

/// Registering a path touches no other path: what led somewhere leads there, and
/// has the source it had.
pub proof fn law_registration_touches_no_other_path<C>(
    state: InnerView<C>,
    path: Seq<char>,
    callback: C,
    other: Seq<Seq<char>>,
)
    requires
        state.consistent(),
        state.tree.len() + route(path).len() < u64::MAX - 1,
        resolved(state.tree, other) is Some,
        other != route(path),
    ensures
        ({
            let after = state.registered(path, callback);
            let ino = resolved(state.tree, other)->0;
            &&& resolved(after.tree, other) == Some(ino)
            &&& after.file(ino) == state.file(ino)
            &&& state.file(ino) ==> after.callbacks[ino] == state.callbacks[ino]
        }),
{
    let after = state.registered(path, callback);
    lemma_planted(state.tree, route(path));
    law_planted_path_resolves(state.tree, route(path));
    law_resolution_is_stable(after.tree, state.tree, other);
    if planted(state.tree, route(path)).1 == resolved(state.tree, other)->0 {
        law_inodes_tell_paths_apart(after.tree, other, route(path));
    }
}

/// Registering a path leaves every entry of every directory with its inode, and every
/// other source as it was.
pub proof fn law_registration_only_adds<C>(
    state: InnerView<C>,
    path: Seq<char>,
    callback: C,
    parent: u64,
    name: Seq<char>,
    ino: u64,
)
    requires
        state.consistent(),
        state.tree.len() + route(path).len() < u64::MAX - 1,
        resolved(state.registered(path, callback).tree, route(path)) != Some(ino),
    ensures
        ({
            let after = state.registered(path, callback);
            &&& child_of(state.tree, parent, name) is Some ==> child_of(after.tree, parent, name)
                == child_of(state.tree, parent, name)
            &&& after.file(ino) == state.file(ino)
            &&& state.file(ino) ==> after.callbacks[ino] == state.callbacks[ino]
            &&& after.handles == state.handles
            &&& after.listings == state.listings
            &&& after.next_handle == state.next_handle
            &&& after.next_direntry == state.next_direntry
        }),
{
    let after = state.registered(path, callback);
    lemma_planted(state.tree, route(path));
    law_planted_path_resolves(state.tree, route(path));
    if child_of(state.tree, parent, name) is Some {
        lemma_child_persists(after.tree, state.tree, parent, name);
    }
}

/// Registering a path again replaces its source and changes nothing else.
pub proof fn law_registering_again_replaces<C>(
    state: InnerView<C>,
    path: Seq<char>,
    first: C,
    second: C,
)
    requires
        state.consistent(),
        state.tree.len() + route(path).len() < u64::MAX - 1,
    ensures
        state.registered(path, first).registered(path, second) == state.registered(path, second),
{
    lemma_planted(state.tree, route(path));
    law_planted_path_resolves(state.tree, route(path));
    let (tree, ino) = planted(state.tree, route(path));
    law_planting_is_idempotent(tree, route(path));
    assert(state.callbacks.insert(ino, first).insert(ino, second) =~= state.callbacks.insert(
        ino,
        second,
    ));
}

proof fn lemma_resolved_prefix(tree: Seq<Link>, names: Seq<Seq<char>>, k: int)
    requires
        sound(tree),
        resolved(tree, names) is Some,
        0 <= k <= names.len(),
    ensures
        resolved(tree, names.take(k)) is Some,
        k < names.len() ==> child_of(tree, resolved(tree, names.take(k))->0, names[k]) is Some,
    decreases names.len(),
{
    if k == names.len() {
        assert(names.take(k) == names);
    } else {
        let rest = names.drop_last();
        if k == rest.len() {
            assert(names.take(k) == rest);
        } else {
            lemma_resolved_prefix(tree, rest, k);
            assert(rest.take(k) == names.take(k));
        }
    }
}

/// What stands on the way to a registered path is a directory, unless it is itself
/// registered as a file.
pub proof fn law_directories_lead_to_registered_paths<C>(
    state: InnerView<C>,
    path: Seq<char>,
    callback: C,
    k: int,
)
    requires
        state.consistent(),
        state.tree.len() + route(path).len() < u64::MAX - 1,
        0 <= k < route(path).len(),
    ensures
        ({
            let after = state.registered(path, callback);
            let ino = resolved(after.tree, route(path).take(k));
            &&& ino is Some
            &&& after.dir(ino->0) || after.file(ino->0)
            &&& !after.file(ino->0) ==> after.attr(ino->0) is Some && after.attr(ino->0)->0.kind
                == FileType::Directory
        }),
{
    let after = state.registered(path, callback);
    lemma_planted(state.tree, route(path));
    law_planted_path_resolves(state.tree, route(path));
    lemma_resolved_prefix(after.tree, route(path), k);
    let ino = resolved(after.tree, route(path).take(k))->0;
    lemma_place_of_child(after.tree, ino, route(path)[k]);
    let place = child_of(after.tree, ino, route(path)[k])->0 - 2;
    assert(after.tree[place].0 == ino);
}

/// A file hides what stands in it: below a file, other than the root, every lookup
/// is told that this is no directory.
pub proof fn law_file_hides_what_lies_below<C>(
    state: InnerView<C>,
    ino: u64,
    name: Option<Seq<char>>,
)
    requires
        state.file(ino),
        ino != ROOT,
    ensures
        !state.dir(ino),
        looked_up(state, ino, name) == Err::<FileAttr, Errno>(Errno::NotDir),
{
}

/// A follow-up read observes the same bytes: after a read, reads through the same
/// handle at other offsets than the start give the same content and change nothing.
pub proof fn law_follow_up_read_observes_the_same_bytes<C: Callback>(
    before: InnerView<C>,
    fh: u64,
    offset: u64,
    bytes: Seq<u8>,
    after: InnerView<C>,
    next_offset: u64,
    next_bytes: Seq<u8>,
    next_after: InnerView<C>,
)
    requires
        before.read_gives(fh, offset, bytes, after),
        next_offset != 0,
        after.read_gives(fh, next_offset, next_bytes, next_after),
    ensures
        next_bytes == bytes,
        next_after == after,
{
}

/// Reading through one handle does not disturb another, nor the tree.
pub proof fn law_read_disturbs_no_other_handle<C: Callback>(
    before: InnerView<C>,
    fh: u64,
    offset: u64,
    bytes: Seq<u8>,
    after: InnerView<C>,
    other: u64,
)
    requires
        before.read_gives(fh, offset, bytes, after),
        other != fh,
    ensures
        after.tree == before.tree,
        after.listings == before.listings,
        after.handles.contains_key(other) == before.handles.contains_key(other),
        before.handles.contains_key(other) ==> after.handles[other] == before.handles[other],
{
}

/// A read at the start of a static file always sees its content, and leaves the
/// source as it was.
pub proof fn law_static_file_reads_the_same(
    before: InnerView<Playlist>,
    fh: u64,
    value: Vec<u8>,
    bytes: Seq<u8>,
    after: InnerView<Playlist>,
)
    requires
        before.callbacks[before.handles[fh].ino] == Playlist::Always(value),
        before.read_gives(fh, 0, bytes, after),
    ensures
        bytes == value@,
        after.callbacks[before.handles[fh].ino] == Playlist::Always(value),
{
}

/// A read at the start of a sequence takes the next content, through whichever
/// handle it comes.
pub proof fn law_sequence_file_advances(
    before: InnerView<Playlist>,
    fh: u64,
    values: Vec<Vec<u8>>,
    next: usize,
    bytes: Seq<u8>,
    after: InnerView<Playlist>,
)
    requires
        before.callbacks[before.handles[fh].ino] == (Playlist::Sequence { values, next }),
        before.read_gives(fh, 0, bytes, after),
    ensures
        next < values@.len() ==> bytes == values@[next as int]@
            && after.callbacks[before.handles[fh].ino] == (Playlist::Sequence {
            values,
            next: (next + 1) as usize,
        }),
        next >= values@.len() ==> bytes == Seq::<u8>::empty()
            && after.callbacks[before.handles[fh].ino] == (Playlist::Sequence { values, next }),
{
}

/// Reading in chunks gives what one read of the whole gives.
pub proof fn law_chunks_reassemble(bytes: Seq<u8>, offset: nat, first: nat, second: nat)
    ensures
        window(bytes, offset, first) + window(bytes, offset + first, second) == window(
            bytes,
            offset,
            first + second,
        ),
        bytes.len() <= first ==> window(bytes, 0, first) == bytes,
        bytes.len() <= offset ==> window(bytes, offset, first) == Seq::<u8>::empty(),
{
    assert(window(bytes, offset, first) + window(bytes, offset + first, second) == window(
        bytes,
        offset,
        first + second,
    ));
    if bytes.len() <= first {
        assert(window(bytes, 0, first) == bytes);
    }
    if bytes.len() <= offset {
        assert(window(bytes, offset, first) == Seq::<u8>::empty());
    }
}

/// The entry of a listing for the place `p` of the tree.
spec fn entry_at<C>(state: InnerView<C>, p: int) -> EntryView {
    EntryView {
        ino: (p + 2) as u64,
        name: state.tree[p].1,
        kind: state.kind((p + 2) as u64),
    }
}

proof fn lemma_inhabitants_are_children<C>(state: InnerView<C>, ino: u64, n: nat)
    requires
        sound(state.tree),
        n <= state.tree.len(),
    ensures
        forall|i: int|
            #![trigger state.inhabitants(ino, n)[i]]
            0 <= i < state.inhabitants(ino, n).len() ==> {
                let entry = state.inhabitants(ino, n)[i];
                &&& ino < entry.ino
                &&& 2 <= entry.ino < n + 2
                &&& state.tree[entry.ino - 2].0 == ino
                &&& entry == entry_at(state, entry.ino - 2)
            },
    decreases n,
{
    if n > 0 {
        let before = state.inhabitants(ino, (n - 1) as nat);
        lemma_inhabitants_are_children(state, ino, (n - 1) as nat);
        assert(ROOT <= state.tree[n - 1].0 < n + 1);
        assert forall|i: int|
            #![trigger state.inhabitants(ino, n)[i]]
            0 <= i < state.inhabitants(ino, n).len() implies ({
            let entry = state.inhabitants(ino, n)[i];
            &&& ino < entry.ino
            &&& 2 <= entry.ino < n + 2
            &&& state.tree[entry.ino - 2].0 == ino
            &&& entry == entry_at(state, entry.ino - 2)
        }) by {
            if i < before.len() {
                assert(state.inhabitants(ino, n)[i] == before[i]);
            }
        }
    }
}

proof fn lemma_inhabitants_are_ordered<C>(state: InnerView<C>, ino: u64, n: nat)
    requires
        sound(state.tree),
        n <= state.tree.len(),
    ensures
        forall|i: int, j: int|
            0 <= i < j < state.inhabitants(ino, n).len() ==> (#[trigger] state.inhabitants(
                ino,
                n,
            )[i]).ino < (#[trigger] state.inhabitants(ino, n)[j]).ino,
    decreases n,
{
    if n > 0 {
        lemma_inhabitants_are_ordered(state, ino, (n - 1) as nat);
        lemma_inhabitants_are_children(state, ino, (n - 1) as nat);
        let before = state.inhabitants(ino, (n - 1) as nat);
        let list = state.inhabitants(ino, n);
        assert forall|i: int, j: int| 0 <= i < j < list.len() implies (#[trigger] list[i]).ino < (
        #[trigger] list[j]).ino by {
            assert(list[i] == before[i]);
            if j < before.len() {
                assert(list[j] == before[j]);
            }
        }
    }
}

proof fn lemma_children_are_inhabitants<C>(state: InnerView<C>, ino: u64, n: nat, p: int)
    requires
        sound(state.tree),
        0 <= p < n <= state.tree.len(),
        state.tree[p].0 == ino,
    ensures
        state.inhabitants(ino, n).contains(entry_at(state, p)),
    decreases n,
{
    let before = state.inhabitants(ino, (n - 1) as nat);
    let list = state.inhabitants(ino, n);
    if p < n - 1 {
        lemma_children_are_inhabitants(state, ino, (n - 1) as nat, p);
        let k = choose|k: int| 0 <= k < before.len() && before[k] == entry_at(state, p);
        assert(list[k] == entry_at(state, p));
    } else {
        assert(list[list.len() - 1] == entry_at(state, p));
    }
}

/// A listing stands in the order of inode numbers, without repetition.
pub proof fn law_listing_is_ordered<C>(state: InnerView<C>, ino: u64)
    requires
        sound(state.tree),
    ensures
        forall|i: int, j: int|
            0 <= i < j < state.listing(ino).len() ==> (#[trigger] state.listing(ino)[i]).ino < (
            #[trigger] state.listing(ino)[j]).ino,
{
    lemma_inhabitants_are_children(state, ino, state.tree.len());
    lemma_inhabitants_are_ordered(state, ino, state.tree.len());
    if state.parent_of(ino) is Some {
        assert(state.tree[ino - 2].0 < ino);
    }
    let kids = state.inhabitants(ino, state.tree.len());
    let list = state.listing(ino);
    let shift = list.len() - kids.len();
    assert forall|i: int, j: int| 0 <= i < j < list.len() implies (#[trigger] list[i]).ino < (
    #[trigger] list[j]).ino by {
        if j >= shift {
            assert(list[j] == kids[j - shift]);
            if i >= shift {
                assert(list[i] == kids[i - shift]);
            }
        }
    }
}

/// A listing shows exactly what lookups find: each name in the directory, with its
/// inode, and no other but the directory and its parent.
pub proof fn law_listing_shows_what_lookups_find<C>(
    state: InnerView<C>,
    ino: u64,
    entry: EntryView,
)
    requires
        sound(state.tree),
        entry.ino > ino,
    ensures
        state.listing(ino).contains(entry) <==> child_of(state.tree, ino, entry.name) == Some(
            entry.ino,
        ) && entry.kind == state.kind(entry.ino),
{
    let n = state.tree.len();
    lemma_inhabitants_are_children(state, ino, n);
    let kids = state.inhabitants(ino, n);
    let list = state.listing(ino);
    let shift = list.len() - kids.len();
    if list.contains(entry) {
        let k = choose|k: int| 0 <= k < list.len() && list[k] == entry;
        if state.parent_of(ino) is Some {
            assert(state.tree[ino - 2].0 < ino);
        }
        assert(k >= shift);
        assert(list[k] == kids[k - shift]);
        lemma_child_of_place(state.tree, entry.ino - 2);
    }
    if child_of(state.tree, ino, entry.name) == Some(entry.ino) && entry.kind == state.kind(
        entry.ino,
    ) {
        lemma_place_of_child(state.tree, ino, entry.name);
        let p = entry.ino - 2;
        lemma_children_are_inhabitants(state, ino, n, p);
        let k = choose|k: int| 0 <= k < kids.len() && kids[k] == entry;
        assert(list[k + shift] == entry);
    }
}

/// A listing holds the directory itself, its parent unless it is the root, each name
/// that a lookup finds in it, and nothing else.
pub proof fn law_listing_is_complete<C>(state: InnerView<C>, ino: u64, entry: EntryView)
    requires
        state.consistent(),
        state.dir(ino),
    ensures
        state.parent_of(ino) is Some <==> ino != ROOT,
        state.listing(ino).contains(entry) <==> {
            ||| entry == (EntryView { ino, name: seq!['.'], kind: FileType::Directory })
            ||| ino != ROOT && entry == (EntryView {
                ino: state.parent_of(ino)->0,
                name: seq!['.', '.'],
                kind: FileType::Directory,
            })
            ||| child_of(state.tree, ino, entry.name) == Some(entry.ino) && entry.kind
                == state.kind(entry.ino)
        },
{
    if ino != ROOT {
        let i = choose|i: int| 0 <= i < state.tree.len() && (#[trigger] state.tree[i]).0 == ino;
        assert(ROOT <= state.tree[i].0 < i + 2);
        assert(state.tree[ino - 2].0 < ino);
    }
    let kids = state.inhabitants(ino, state.tree.len());
    let list = state.listing(ino);
    let shift = list.len() - kids.len();
    let own = EntryView { ino, name: seq!['.'], kind: FileType::Directory };
    assert(list[shift - 1] == own);
    if ino != ROOT {
        assert(list[0] == (EntryView {
            ino: state.parent_of(ino)->0,
            name: seq!['.', '.'],
            kind: FileType::Directory,
        }));
    }
    if entry.ino > ino {
        law_listing_shows_what_lookups_find(state, ino, entry);
    } else {
        lemma_inhabitants_are_children(state, ino, state.tree.len());
        if list.contains(entry) {
            let k = choose|k: int| 0 <= k < list.len() && list[k] == entry;
            if k >= shift {
                assert(list[k] == kids[k - shift]);
            }
        }
        if child_of(state.tree, ino, entry.name) == Some(entry.ino) {
            lemma_place_of_child(state.tree, ino, entry.name);
            assert(state.tree[entry.ino - 2].0 < entry.ino);
        }
    }
}

/// An open directory keeps the listing that it was opened with, under a handle that
/// no open directory has: registrations do not change it, and opening runs no
/// callback.
pub proof fn law_open_directory_keeps_its_listing<C>(
    state: InnerView<C>,
    ino: u64,
    path: Seq<char>,
    callback: C,
)
    requires
        state.consistent(),
        state.next_direntry < u64::MAX,
    ensures
        !state.listings.contains_key(state.next_direntry),
        state.opened_dir(ino).callbacks == state.callbacks,
        state.opened_dir(ino).next_direntry > state.next_direntry,
        state.opened_dir(ino).listings.contains_key(state.next_direntry),
        state.opened_dir(ino).listings[state.next_direntry] == state.listing(ino),
        state.opened_dir(ino).registered(path, callback).listings == state.opened_dir(
            ino,
        ).listings,
{
}

/// A handle is never given out twice while the first is open.
pub proof fn law_open_gives_a_fresh_handle<C>(state: InnerView<C>, ino: u64)
    requires
        state.consistent(),
        state.next_handle < u64::MAX,
    ensures
        !state.handles.contains_key(state.next_handle),
        state.opened(ino).handles.contains_key(state.next_handle),
        forall|fh: u64| #[trigger]
            state.handles.contains_key(fh) ==> state.opened(ino).handles.contains_key(fh)
                && state.opened(ino).handles[fh] == state.handles[fh],
{
}

/// What was registered can be read back: opening the path and reading from the start
/// gives the content that comes next, and takes it.
pub proof fn law_read_gives_back_what_was_registered(
    state: InnerView<Playlist>,
    path: Seq<char>,
    source: Playlist,
    bytes: Seq<u8>,
    done: InnerView<Playlist>,
)
    requires
        state.consistent(),
        state.tree.len() + route(path).len() < u64::MAX - 1,
        state.next_handle < u64::MAX,
        ({
            let after = state.registered(path, source);
            let ino = resolved(after.tree, route(path))->0;
            after.opened(ino).read_gives(after.next_handle, 0, bytes, done)
        }),
    ensures
        bytes == source.content(),
        done.callbacks[resolved(done.tree, route(path))->0] == source.rest(),
{
    law_registered_path_is_a_file(state, path, source);
}

/// Where the kernel gets by looking up one name after the other from the root.
pub open spec fn walked<C>(state: InnerView<C>, names: Seq<Seq<char>>) -> Result<u64, Errno>
    decreases names.len(),
{
    if names.len() == 0 {
        Ok(ROOT)
    } else {
        match walked(state, names.drop_last()) {
            Err(errno) => Err(errno),
            Ok(parent) => match looked_up(state, parent, Some(names.last())) {
                Err(errno) => Err(errno),
                Ok(attr) => Ok(attr.ino),
            },
        }
    }
}

proof fn lemma_inhabited_by_child<C>(state: InnerView<C>, parent: u64, name: Seq<char>)
    requires
        sound(state.tree),
        child_of(state.tree, parent, name) is Some,
    ensures
        state.inhabited(parent),
{
    lemma_place_of_child(state.tree, parent, name);
    let place = child_of(state.tree, parent, name)->0 - 2;
    assert(state.tree[place].0 == parent);
}

/// A walk along names that lead somewhere arrives there, or is told on the way that
/// something is no directory.
proof fn lemma_walk<C>(state: InnerView<C>, names: Seq<Seq<char>>)
    requires
        sound(state.tree),
        resolved(state.tree, names) is Some,
        state.attr(resolved(state.tree, names)->0) is Some,
    ensures
        walked(state, names) == Ok::<u64, Errno>(resolved(state.tree, names)->0) || walked(
            state,
            names,
        ) == Err::<u64, Errno>(Errno::NotDir),
    decreases names.len(),
{
    if names.len() > 0 {
        let parent = resolved(state.tree, names.drop_last())->0;
        lemma_inhabited_by_child(state, parent, names.last());
        lemma_walk(state, names.drop_last());
    }
}

/// A walk to a registered path arrives, as long as no file stands in the way.
pub proof fn law_walk_reaches_registered_path<C>(state: InnerView<C>, names: Seq<Seq<char>>)
    requires
        sound(state.tree),
        resolved(state.tree, names) is Some,
        state.attr(resolved(state.tree, names)->0) is Some,
        forall|k: int|
            0 < k < names.len() ==> !state.file(#[trigger] resolved(state.tree, names.take(k))->0),
    ensures
        walked(state, names) == Ok::<u64, Errno>(resolved(state.tree, names)->0),
    decreases names.len(),
{
    if names.len() > 0 {
        let rest = names.drop_last();
        let parent = resolved(state.tree, rest)->0;
        lemma_inhabited_by_child(state, parent, names.last());
        assert(names.take(rest.len() as int) == rest);
        if rest.len() > 0 {
            assert(!state.file(resolved(state.tree, names.take(rest.len() as int))->0));
        }
        assert forall|k: int| 0 < k < rest.len() implies !state.file(
            #[trigger] resolved(state.tree, rest.take(k))->0,
        ) by {
            assert(rest.take(k) == names.take(k));
            assert(!state.file(resolved(state.tree, names.take(k))->0));
        }
        law_walk_reaches_registered_path(state, rest);
    }
}

/// A walk past a file ends there: it is told that this is no directory.
pub proof fn law_walk_stops_at_a_file<C>(state: InnerView<C>, names: Seq<Seq<char>>, k: int)
    requires
        sound(state.tree),
        resolved(state.tree, names) is Some,
        0 < k < names.len(),
        state.file(resolved(state.tree, names.take(k))->0),
    ensures
        walked(state, names) == Err::<u64, Errno>(Errno::NotDir),
    decreases names.len(),
{
    let rest = names.drop_last();
    if k < rest.len() {
        assert(rest.take(k) == names.take(k));
        law_walk_stops_at_a_file(state, rest, k);
    } else {
        assert(names.take(k) == rest);
        let parent = resolved(state.tree, rest)->0;
        lemma_walk(state, rest);
        lemma_place_of_child(
            state.tree,
            resolved(state.tree, rest.drop_last())->0,
            rest.last(),
        );
        assert(parent != ROOT);
    }
}

/// A read sees the bytes from its offset on, as many as were asked for and are there:
/// none at or past the end, and each at its place.
pub proof fn law_read_sees_the_bytes_from_its_offset_on(
    bytes: Seq<u8>,
    offset: nat,
    size: nat,
    k: int,
)
    ensures
        offset >= bytes.len() ==> window(bytes, offset, size).len() == 0,
        offset < bytes.len() && size <= bytes.len() - offset ==> window(bytes, offset, size).len()
            == size,
        offset < bytes.len() && size > bytes.len() - offset ==> window(bytes, offset, size).len()
            == bytes.len() - offset,
        0 <= k < window(bytes, offset, size).len() ==> window(bytes, offset, size)[k]
            == bytes[offset + k],
{
}

/// What one read does. At the start of a file, or where nothing was generated for the
/// handle, the source of the handle's file gives the content, which the handle then
/// keeps; elsewhere the handle's content is given again and nothing changes. No other
/// source, no other handle, and nothing else of the filesystem is touched.
pub proof fn law_read_generates_or_repeats<C: Callback>(
    before: InnerView<C>,
    fh: u64,
    offset: u64,
    bytes: Seq<u8>,
    after: InnerView<C>,
    other: u64,
)
    requires
        before.read_gives(fh, offset, bytes, after),
    ensures
        offset != 0 && before.handles[fh].content is Some ==> after == before
            && before.handles[fh].content == Some(bytes),
        offset == 0 || before.handles[fh].content is None ==> {
            let ino = before.handles[fh].ino;
            &&& before.callbacks[ino].gives(bytes, after.callbacks[ino])
            &&& after.callbacks.dom().contains(ino)
            &&& after.handles.dom().contains(fh)
            &&& after.handles[fh].ino == ino
            &&& after.handles[fh].content == Some(bytes)
            &&& other != ino ==> after.callbacks.dom().contains(other)
                == before.callbacks.dom().contains(other) && after.callbacks[other]
                == before.callbacks[other]
            &&& other != fh ==> after.handles.dom().contains(other)
                == before.handles.dom().contains(other) && after.handles[other]
                == before.handles[other]
            &&& after.tree == before.tree
            &&& after.listings == before.listings
            &&& after.next_handle == before.next_handle
            &&& after.next_direntry == before.next_direntry
        },
{
}

/// A name in a directory has the inode of the place where it was entered: the entry
/// made `i`-th, from zero, has the inode `i + 2`.
pub proof fn law_inode_is_the_place_of_the_entry(
    tree: Seq<Link>,
    parent: u64,
    name: Seq<char>,
    ino: u64,
)
    requires
        sound(tree),
    ensures
        child_of(tree, parent, name) == Some(ino) <==> 2 <= ino < tree.len() + 2 && tree[ino - 2]
            == (parent, name),
{
    if child_of(tree, parent, name) is Some {
        lemma_place_of_child(tree, parent, name);
    }
    if 2 <= ino < tree.len() + 2 && tree[ino - 2] == (parent, name) {
        lemma_child_of_place(tree, ino - 2);
    }
}

/// An inode stands in the directory in which a lookup finds it, and the root in none.
pub proof fn law_inode_stands_where_it_is_found<C>(
    state: InnerView<C>,
    parent: u64,
    name: Seq<char>,
)
    requires
        sound(state.tree),
    ensures
        state.parent_of(ROOT) is None,
        child_of(state.tree, parent, name) matches Some(ino) ==> state.parent_of(ino) == Some(
            parent,
        ),
{
    if let Some(ino) = child_of(state.tree, parent, name) {
        lemma_place_of_child(state.tree, parent, name);
    }
}

/// What an inode is: the root is a directory; another is one if something stands in it
/// and it has no source; one with a source is a file. Attributes tell which, with the
/// rights and the links of each, and no size. What is neither has none.
pub proof fn law_attributes_tell_what_an_inode_is<C>(state: InnerView<C>, ino: u64)
    ensures
        state.file(ino) <==> state.callbacks.dom().contains(ino),
        state.dir(ROOT),
        ino != ROOT ==> (state.dir(ino) <==> !state.callbacks.dom().contains(ino) && exists|
            i: int,
        | 0 <= i < state.tree.len() && (#[trigger] state.tree[i]).0 == ino),
        state.attr(ino) is None <==> !state.dir(ino) && !state.file(ino),
        state.attr(ino) matches Some(attr) ==> {
            &&& attr.ino == ino
            &&& attr.size == 0
            &&& attr.blocks == 1
            &&& attr.blksize == 4096
            &&& attr.uid == 0 && attr.gid == 0 && attr.rdev == 0 && attr.flags == 0
            &&& attr.kind == state.kind(ino)
            &&& state.dir(ino) ==> attr.kind == FileType::Directory && attr.perm == 0o755
                && attr.nlink == 2
            &&& !state.dir(ino) ==> attr.kind == FileType::RegularFile && attr.perm == 0o444
                && attr.nlink == 1
        },
{
}

/// What a lookup answers: that this is no directory; else the attributes of the name's
/// inode; else that there is no such thing, which holds of every name that is no text.
pub proof fn law_lookup_finds_what_stands_there<C>(
    state: InnerView<C>,
    parent: u64,
    name: Option<Seq<char>>,
)
    ensures
        !state.dir(parent) <==> looked_up(state, parent, name) == Err::<FileAttr, Errno>(
            Errno::NotDir,
        ),
        state.dir(parent) && name is None ==> looked_up(state, parent, name) == Err::<
            FileAttr,
            Errno,
        >(Errno::NoEnt),
        looked_up(state, parent, name) matches Ok(attr) ==> {
            &&& name is Some
            &&& child_of(state.tree, parent, name->0) == Some(attr.ino)
            &&& state.attr(attr.ino) == Some(attr)
        },
        state.dir(parent) && looked_up(state, parent, name) is Err && name is Some ==> {
            ||| child_of(state.tree, parent, name->0) is None
            ||| state.attr(child_of(state.tree, parent, name->0)->0) is None
        },
{
}

/// `link` is a step on the way along `names`: the next name, in the directory that the
/// names before it lead to.
pub open spec fn on_the_way(tree: Seq<Link>, names: Seq<Seq<char>>, link: Link) -> bool {
    exists|k: int|
        0 <= k < names.len() && #[trigger] resolved(tree, names.take(k)) == Some(link.0) && names[k]
            == link.1
}

/// Planting a path makes no entry but those on its way, and keeps those that were there
/// as they were.
pub proof fn law_planting_makes_only_the_way(tree: Seq<Link>, names: Seq<Seq<char>>, place: int)
    requires
        sound(tree),
        tree.len() + names.len() < u64::MAX - 1,
        0 <= place < planted(tree, names).0.len(),
    ensures
        tree.len() <= planted(tree, names).0.len() <= tree.len() + names.len(),
        place < tree.len() ==> planted(tree, names).0[place] == tree[place],
        place >= tree.len() ==> on_the_way(
            planted(tree, names).0,
            names,
            planted(tree, names).0[place],
        ),
    decreases names.len(),
{
    lemma_planted(tree, names);
    let after = planted(tree, names).0;
    assert(after.take(tree.len() as int) == tree);
    if place < tree.len() {
        assert(after.take(tree.len() as int)[place] == after[place]);
    } else {
        let rest = names.drop_last();
        lemma_planted(tree, rest);
        law_planted_path_resolves(tree, rest);
        let (before, parent) = planted(tree, rest);
        crate::mockfs::tree::lemma_with_child(before, parent, names.last());
        if place < before.len() {
            law_planting_makes_only_the_way(tree, rest, place);
            assert(after[place] == before[place]);
            let k = choose|k: int|
                0 <= k < rest.len() && #[trigger] resolved(before, rest.take(k)) == Some(
                    before[place].0,
                ) && rest[k] == before[place].1;
            law_resolution_is_stable(after, before, rest.take(k));
            assert(rest.take(k) == names.take(k));
            assert(resolved(after, names.take(k)) == Some(after[place].0));
        } else {
            assert(after[place] == (parent, names.last()));
            law_resolution_is_stable(after, before, rest);
            assert(names.take(names.len() - 1) == rest);
            assert(resolved(after, names.take(names.len() - 1)) == Some(after[place].0));
        }
    }
}

/// A registered path is reached by its segments without those that climb.
pub proof fn law_route_leaves_climbing_out(path: Seq<char>)
    ensures
        route(path) == segments(path).filter(|piece: Seq<char>| piece != seq!['.', '.']),
{
    lemma_downward_is_a_filter(segments(path));
}

proof fn lemma_downward_is_a_filter(list: Seq<Seq<char>>)
    ensures
        downward(list) == list.filter(|piece: Seq<char>| piece != seq!['.', '.']),
    decreases list.len(),
{
    reveal(Seq::filter);
    if list.len() > 0 {
        lemma_downward_is_a_filter(list.drop_last());
    }
}

/// Opening a file or a directory gives out the next handle and touches nothing else. A
/// file that was opened has no content yet.
pub proof fn law_opening_touches_nothing_else<C>(state: InnerView<C>, ino: u64, other: u64)
    requires
        state.next_handle < u64::MAX,
        state.next_direntry < u64::MAX,
    ensures
        ({
            let file = state.opened(ino);
            &&& file.handles[state.next_handle].ino == ino
            &&& file.handles[state.next_handle].content is None
            &&& file.handles.dom() == state.handles.dom().insert(state.next_handle)
            &&& other != state.next_handle ==> file.handles[other] == state.handles[other]
            &&& file.next_handle == state.next_handle + 1
            &&& file.tree == state.tree && file.callbacks == state.callbacks
            &&& file.listings == state.listings && file.next_direntry == state.next_direntry
        }),
        ({
            let dir = state.opened_dir(ino);
            &&& dir.listings[state.next_direntry] == state.listing(ino)
            &&& dir.listings.dom() == state.listings.dom().insert(state.next_direntry)
            &&& other != state.next_direntry ==> dir.listings[other] == state.listings[other]
            &&& dir.next_direntry == state.next_direntry + 1
            &&& dir.tree == state.tree && dir.callbacks == state.callbacks
            &&& dir.handles == state.handles && dir.next_handle == state.next_handle
        }),
{
    assert(state.opened(ino).handles.dom() =~= state.handles.dom().insert(state.next_handle));
    assert(state.opened_dir(ino).listings.dom() =~= state.listings.dom().insert(
        state.next_direntry,
    ));
}

/// A list of entries stands for what each of them shows, in their order.
pub proof fn law_each_entry_is_shown(list: Seq<Listed>, i: int)
    requires
        0 <= i < list.len(),
    ensures
        entries(list).len() == list.len(),
        entries(list)[i].ino == list[i].ino,
        entries(list)[i].kind == list[i].kind,
        entries(list)[i].name == list[i].name@,
{
}

/// A new filesystem holds its root and nothing else, and counts its handles from one.
pub proof fn law_new_filesystem_holds_its_root<C>(ino: u64)
    ensures
        ({
            let state = InnerView::<C>::bare();
            &&& state.consistent()
            &&& state.dir(ino) <==> ino == ROOT
            &&& !state.file(ino)
            &&& !state.handles.dom().contains(ino) && !state.listings.dom().contains(ino)
            &&& state.next_handle == 1 && state.next_direntry == 1
        }),
{
}

} // verus!
