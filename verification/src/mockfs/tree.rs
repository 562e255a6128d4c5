//! Names and inodes.
//!
//! Inode numbers are given out in order: the root has the first, and the entry that
//! was made `i`-th, counted from zero, has the number `i + 2`.
use vstd::prelude::*;

use crate::text::same_text;

verus! {

/// The inode number of the root directory.
pub const ROOT: u64 = 1;

/// One directory entry: a name in a parent directory.
#[derive(Debug)]
pub struct Child {
    pub parent: u64,
    pub name: String,
}

/// A directory entry, as parent and name.
pub type Link = (u64, Seq<char>);

/// The entries as parents and names.
pub open spec fn links(children: Seq<Child>) -> Seq<Link> {
    children.map_values(|child: Child| (child.parent, child.name@))
}

/// No entry was made twice, each stands in the root or in an entry made before it,
/// and inode numbers suffice.
pub open spec fn sound(tree: Seq<Link>) -> bool {
    &&& tree.len() < u64::MAX - 1
    &&& forall|i: int| 0 <= i < tree.len() ==> ROOT <= (#[trigger] tree[i]).0 < i + 2
    &&& forall|i: int, j: int| 0 <= i < j < tree.len() ==> #[trigger] tree[i] != #[trigger] tree[j]
}

/// The inode of the name `name` in the directory `parent`.
pub open spec fn child_of(tree: Seq<Link>, parent: u64, name: Seq<char>) -> Option<u64> {
    if tree.contains((parent, name)) {
        Some((tree.index_of((parent, name)) + 2) as u64)
    } else {
        None
    }
}

/// The tree once `name` stands in `parent`.
pub open spec fn with_child(tree: Seq<Link>, parent: u64, name: Seq<char>) -> Seq<Link> {
    if tree.contains((parent, name)) {
        tree
    } else {
        tree.push((parent, name))
    }
}

/// The tree, and the inode at the end, once a path of names leads from the root.
pub open spec fn planted(tree: Seq<Link>, names: Seq<Seq<char>>) -> (Seq<Link>, u64)
    decreases names.len(),
{
    if names.len() == 0 {
        (tree, ROOT)
    } else {
        let (before, parent) = planted(tree, names.drop_last());
        let after = with_child(before, parent, names.last());
        (after, child_of(after, parent, names.last())->0)
    }
}

/// The inode that a path of names leads to.
pub open spec fn resolved(tree: Seq<Link>, names: Seq<Seq<char>>) -> Option<u64>
    decreases names.len(),
{
    if names.len() == 0 {
        Some(ROOT)
    } else {
        match resolved(tree, names.drop_last()) {
            Some(parent) => child_of(tree, parent, names.last()),
            None => None,
        }
    }
}

/// `shorter` is how `tree` began.
pub open spec fn grew_from(tree: Seq<Link>, shorter: Seq<Link>) -> bool {
    shorter.len() <= tree.len() && tree.take(shorter.len() as int) == shorter
}

/// In a sound tree an entry has the number of its place.
pub proof fn lemma_child_of_place(tree: Seq<Link>, i: int)
    requires
        sound(tree),
        0 <= i < tree.len(),
    ensures
        child_of(tree, tree[i].0, tree[i].1) == Some((i + 2) as u64),
{
    assert(tree.contains(tree[i]));
    let j = tree.index_of(tree[i]);
    assert(tree[j] == tree[i]);
    if j < i {
        assert(tree[j] != tree[i]);
    } else if i < j {
        assert(tree[i] != tree[j]);
    }
}

/// The number of an entry tells its place.
pub proof fn lemma_place_of_child(tree: Seq<Link>, parent: u64, name: Seq<char>)
    requires
        sound(tree),
        child_of(tree, parent, name) is Some,
    ensures
        ({
            let ino = child_of(tree, parent, name)->0;
            &&& 2 <= ino < tree.len() + 2
            &&& tree[ino - 2] == (parent, name)
        }),
{
    let i = tree.index_of((parent, name));
    assert(tree[i] == (parent, name));
}

/// Adding an entry keeps a tree sound and every number as it was.
pub proof fn lemma_with_child(tree: Seq<Link>, parent: u64, name: Seq<char>)
    requires
        sound(tree),
        tree.len() + 1 < u64::MAX - 1,
        ROOT <= parent < tree.len() + 2,
    ensures
        sound(with_child(tree, parent, name)),
        grew_from(with_child(tree, parent, name), tree),
        child_of(with_child(tree, parent, name), parent, name) is Some,
        child_of(tree, parent, name) is None ==> child_of(
            with_child(tree, parent, name),
            parent,
            name,
        ) == Some((tree.len() + 2) as u64),
{
    let after = with_child(tree, parent, name);
    if tree.contains((parent, name)) {
        assert(after.take(tree.len() as int) == tree);
    } else {
        assert(after.take(tree.len() as int) == tree);
        assert(after[tree.len() as int] == (parent, name));
        assert forall|i: int, j: int| 0 <= i < j < after.len() implies #[trigger] after[i]
            != #[trigger] after[j] by {
            if j == tree.len() {
                assert(tree[i] == after[i]);
                if after[i] == after[j] {
                    assert(tree.contains((parent, name)));
                }
            }
        }
        assert(sound(after));
        lemma_child_of_place(after, tree.len() as int);
    }
}

/// A number that a name has stays its number as the tree grows.
pub proof fn lemma_child_persists(
    tree: Seq<Link>,
    shorter: Seq<Link>,
    parent: u64,
    name: Seq<char>,
)
    requires
        sound(tree),
        sound(shorter),
        grew_from(tree, shorter),
        child_of(shorter, parent, name) is Some,
    ensures
        child_of(tree, parent, name) == child_of(shorter, parent, name),
{
    lemma_place_of_child(shorter, parent, name);
    let i = child_of(shorter, parent, name)->0 - 2;
    assert(tree.take(shorter.len() as int)[i] == shorter[i]);
    lemma_child_of_place(tree, i);
}

proof fn lemma_grew_transitively(tree: Seq<Link>, middle: Seq<Link>, shorter: Seq<Link>)
    requires
        grew_from(tree, middle),
        grew_from(middle, shorter),
    ensures
        grew_from(tree, shorter),
{
    assert(tree.take(middle.len() as int).take(shorter.len() as int) == tree.take(
        shorter.len() as int,
    ));
}

/// Planting a path keeps a tree sound and every number as it was.
pub proof fn lemma_planted(tree: Seq<Link>, names: Seq<Seq<char>>)
    requires
        sound(tree),
        tree.len() + names.len() < u64::MAX - 1,
    ensures
        sound(planted(tree, names).0),
        planted(tree, names).0.len() <= tree.len() + names.len(),
        grew_from(planted(tree, names).0, tree),
        ROOT <= planted(tree, names).1 < planted(tree, names).0.len() + 2,
        planted(tree, names).1 == ROOT <==> names.len() == 0,
    decreases names.len(),
{
    if names.len() == 0 {
        assert(tree.take(tree.len() as int) == tree);
    } else {
        lemma_planted(tree, names.drop_last());
        let (before, parent) = planted(tree, names.drop_last());
        lemma_with_child(before, parent, names.last());
        let after = with_child(before, parent, names.last());
        lemma_place_of_child(after, parent, names.last());
        lemma_grew_transitively(after, before, tree);
    }
}

/// A path that leads somewhere leads to the same place as the tree grows.
pub proof fn law_resolution_is_stable(
    tree: Seq<Link>,
    shorter: Seq<Link>,
    names: Seq<Seq<char>>,
)
    requires
        sound(tree),
        sound(shorter),
        grew_from(tree, shorter),
        resolved(shorter, names) is Some,
    ensures
        resolved(tree, names) == resolved(shorter, names),
    decreases names.len(),
{
    if names.len() > 0 {
        law_resolution_is_stable(tree, shorter, names.drop_last());
        let parent = resolved(shorter, names.drop_last())->0;
        lemma_child_persists(tree, shorter, parent, names.last());
    }
}

/// A planted path leads to the inode that planting it gave.
pub proof fn law_planted_path_resolves(tree: Seq<Link>, names: Seq<Seq<char>>)
    requires
        sound(tree),
        tree.len() + names.len() < u64::MAX - 1,
    ensures
        resolved(planted(tree, names).0, names) == Some(planted(tree, names).1),
    decreases names.len(),
{
    if names.len() > 0 {
        let (before, parent) = planted(tree, names.drop_last());
        let after = planted(tree, names).0;
        lemma_planted(tree, names.drop_last());
        lemma_planted(tree, names);
        lemma_with_child(before, parent, names.last());
        law_planted_path_resolves(tree, names.drop_last());
        law_resolution_is_stable(after, before, names.drop_last());
    }
}

/// Two paths lead to the same inode only if they are the same path.
pub proof fn law_inodes_tell_paths_apart(
    tree: Seq<Link>,
    one: Seq<Seq<char>>,
    other: Seq<Seq<char>>,
)
    requires
        sound(tree),
        resolved(tree, one) is Some,
        resolved(tree, one) == resolved(tree, other),
    ensures
        one == other,
    decreases one.len(),
{
    if one.len() > 0 {
        lemma_place_of_child(tree, resolved(tree, one.drop_last())->0, one.last());
    }
    if other.len() > 0 {
        lemma_place_of_child(tree, resolved(tree, other.drop_last())->0, other.last());
    }
    if one.len() > 0 {
        assert(other.len() > 0);
        law_inodes_tell_paths_apart(tree, one.drop_last(), other.drop_last());
        assert(one == one.drop_last().push(one.last()));
        assert(other == other.drop_last().push(other.last()));
    } else {
        assert(one == other);
    }
}

/// Planting a path that already leads somewhere changes nothing.
pub proof fn law_planting_is_idempotent(tree: Seq<Link>, names: Seq<Seq<char>>)
    requires
        sound(tree),
        resolved(tree, names) is Some,
    ensures
        planted(tree, names) == (tree, resolved(tree, names)->0),
    decreases names.len(),
{
    if names.len() > 0 {
        law_planting_is_idempotent(tree, names.drop_last());
    }
}

/// The place of an entry.
pub fn find_child(children: &Vec<Child>, parent: u64, name: &str) -> (r: Option<u64>)
    requires
        sound(links(children@)),
    ensures
        r == child_of(links(children@), parent, name@),
{
    let ghost tree = links(children@);
    let mut i: usize = 0;
    while i < children.len()
        invariant
            i <= children@.len(),
            tree == links(children@),
            sound(tree),
            forall|j: int| 0 <= j < i ==> #[trigger] tree[j] != (parent, name@),
        decreases children@.len() - i,
    {
        assert(tree[i as int] == (children@[i as int].parent, children@[i as int].name@));
        if children[i].parent == parent && same_text(children[i].name.as_str(), name) {
            proof {
                lemma_child_of_place(tree, i as int);
            }
            return Some(i as u64 + 2);
        }
        i += 1;
    }
    None
}

} // verus!
