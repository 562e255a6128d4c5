//! Slash-separated paths as text.
use vstd::prelude::*;

use crate::text::{characters, substring, texts, without_suffix};

verus! {

/// The path of `name` in the directory `dir`: a slash stands between them unless
/// the directory is empty or ends in one, and an absolute `name` stands alone.
pub open spec fn joined(dir: Seq<char>, name: Seq<char>) -> Seq<char> {
    if name.len() > 0 && name[0] == '/' {
        name
    } else if dir.len() == 0 || dir.last() == '/' {
        dir + name
    } else {
        dir.push('/') + name
    }
}

/// The path of `name` in the directory `dir`.
pub fn join(dir: &str, name: &str) -> (path: String)
    ensures
        path@ == joined(dir@, name@),
{
    let d: Vec<char> = characters(dir);
    let n: Vec<char> = characters(name);
    if n.len() > 0 && n[0] == '/' {
        return name.to_owned();
    }
    let mut path: String = dir.to_owned();
    if d.len() > 0 && d[d.len() - 1] != '/' {
        path.push('/');
    }
    path.append(name);
    path
}

/// What comes after the last slash.
pub open spec fn base_name(path: Seq<char>) -> Seq<char>
    decreases path.len(),
{
    if path.len() == 0 || path.last() == '/' {
        Seq::empty()
    } else {
        base_name(path.drop_last()).push(path.last())
    }
}

/// What comes after the last slash.
pub fn base_name_of(path: &str) -> (name: String)
    ensures
        name@ == base_name(path@),
{
    let chars: Vec<char> = characters(path);
    let ghost all = path@;
    let mut from: usize = chars.len();
    assert(all.subrange(all.len() as int, all.len() as int) == Seq::<char>::empty());
    assert(all.take(all.len() as int) == all);
    assert(base_name(all) + Seq::<char>::empty() == base_name(all));
    while from > 0 && chars[from - 1] != '/'
        invariant
            from <= all.len(),
            chars@ == all,
            base_name(all) == base_name(all.take(from as int)) + all.subrange(
                from as int,
                all.len() as int,
            ),
        decreases from,
    {
        proof {
            let shorter = all.take(from as int);
            assert(shorter.drop_last() == all.take(from - 1));
            assert(base_name(all.take(from - 1)).push(shorter.last()) + all.subrange(
                from as int,
                all.len() as int,
            ) == base_name(all.take(from - 1)) + all.subrange(from - 1, all.len() as int));
        }
        from -= 1;
    }
    assert(base_name(all.take(from as int)) == Seq::<char>::empty());
    assert(Seq::<char>::empty() + all.subrange(from as int, all.len() as int) == all.subrange(
        from as int,
        all.len() as int,
    ));
    substring(&chars, from, chars.len())
}

/// A name without slashes is what a path to it ends in.
pub proof fn lemma_base_name_of_joined(dir: Seq<char>, name: Seq<char>)
    requires
        !name.contains('/'),
    ensures
        base_name(joined(dir, name)) == name,
    decreases name.len(),
{
    if name.len() > 0 {
        assert(name.contains(name[0]));
        assert(name.contains(name.last()));
        let shorter = name.drop_last();
        assert forall|c: char| shorter.contains(c) implies name.contains(c) by {
            let i = choose|i: int| 0 <= i < shorter.len() && shorter[i] == c;
            assert(name[i] == c);
        }
        lemma_base_name_of_joined(dir, shorter);
        let path = joined(dir, name);
        assert(path.last() == name.last());
        if shorter.len() > 0 {
            assert(shorter.contains(shorter[0]));
        }
        assert(path.drop_last() == joined(dir, shorter));
        assert(shorter.push(name.last()) == name);
    }
}

/// What comes after the last slash is what a path ends in.
proof fn lemma_base_name_is_suffix(path: Seq<char>)
    ensures
        base_name(path).len() <= path.len(),
        base_name(path) == path.skip(path.len() - base_name(path).len()),
    decreases path.len(),
{
    if path.len() > 0 && path.last() != '/' {
        lemma_base_name_is_suffix(path.drop_last());
        let name = base_name(path);
        assert(name == path.skip(path.len() - name.len()));
    }
}

/// A path whose last name has a suffix has that suffix itself.
pub proof fn lemma_suffix_of_base_name(path: Seq<char>, suffix: Seq<char>)
    requires
        without_suffix(base_name(path), suffix) is Some,
    ensures
        without_suffix(path, suffix) is Some,
        path == without_suffix(path, suffix)->0 + suffix,
{
    lemma_base_name_is_suffix(path);
    let name = base_name(path);
    assert(path.skip(path.len() - suffix.len()) == name.skip(name.len() - suffix.len()));
    let stem = path.take(path.len() - suffix.len());
    assert(stem + path.skip(path.len() - suffix.len()) == path);
}

/// A path cut at its slashes.
pub open spec fn pieces(path: Seq<char>) -> Seq<Seq<char>>
    decreases path.len(),
{
    if path.len() == 0 {
        seq![Seq::empty()]
    } else {
        let before = pieces(path.drop_last());
        if path.last() == '/' {
            before.push(Seq::empty())
        } else {
            before.update(before.len() - 1, before.last().push(path.last()))
        }
    }
}

/// A piece that names something: neither nothing nor the directory itself.
pub open spec fn names_something(piece: Seq<char>) -> bool {
    piece.len() > 0 && piece != seq!['.']
}

/// The pieces of a list that name something.
pub open spec fn meaningful(list: Seq<Seq<char>>) -> Seq<Seq<char>>
    decreases list.len(),
{
    if list.len() == 0 {
        Seq::empty()
    } else {
        let before = meaningful(list.drop_last());
        if names_something(list.last()) {
            before.push(list.last())
        } else {
            before
        }
    }
}

/// The segments of a path: what stands between its slashes, without repeated
/// slashes and mentions of the directory itself.
pub open spec fn segments(path: Seq<char>) -> Seq<Seq<char>> {
    meaningful(pieces(path))
}

/// Whether a path starts at the root.
pub open spec fn absolute(path: Seq<char>) -> bool {
    path.len() > 0 && path[0] == '/'
}

/// Whether a path climbs to a parent directory.
pub open spec fn climbs(path: Seq<char>) -> bool {
    segments(path).contains(seq!['.', '.'])
}

/// The absolute path of a list of segments; nothing for no segments.
pub open spec fn rooted(list: Seq<Seq<char>>) -> Seq<char>
    decreases list.len(),
{
    if list.len() == 0 {
        Seq::empty()
    } else {
        rooted(list.drop_last()).push('/') + list.last()
    }
}

/// Whether a path starts at the root.
pub fn is_absolute(path: &str) -> (r: bool)
    ensures
        r == absolute(path@),
{
    let chars: Vec<char> = characters(path);
    chars.len() > 0 && chars[0] == '/'
}

/// Whether a piece names something.
fn is_meaningful(piece: &str) -> (r: bool)
    ensures
        r == names_something(piece@),
{
    let chars: Vec<char> = characters(piece);
    if chars.len() == 1 {
        proof {
            if piece@[0] == '.' {
                assert(piece@ =~= seq!['.']);
            }
        }
        chars[0] != '.'
    } else {
        chars.len() > 0
    }
}

proof fn lemma_push_text(list: Seq<String>, s: String)
    ensures
        texts(list.push(s)) == texts(list).push(s@),
{
    assert(texts(list.push(s)) == texts(list).push(s@));
}

/// The segments of a path.
pub fn split(path: &str) -> (list: Vec<String>)
    ensures
        texts(list@) == segments(path@),
{
    let chars: Vec<char> = characters(path);
    let ghost all = path@;
    let mut list: Vec<String> = Vec::new();
    let mut current: String = String::new();
    let mut i: usize = 0;
    proof {
        assert(all.take(0) == Seq::<char>::empty());
        assert(pieces(all.take(0)).drop_last() == Seq::<Seq<char>>::empty());
        assert(texts(list@) == Seq::<Seq<char>>::empty());
        assert(current@ == Seq::<char>::empty());
    }
    while i < chars.len()
        invariant
            i <= all.len(),
            chars@ == all,
            pieces(all.take(i as int)).len() > 0,
            texts(list@) == meaningful(pieces(all.take(i as int)).drop_last()),
            current@ == pieces(all.take(i as int)).last(),
        decreases all.len() - i,
    {
        let ghost before = pieces(all.take(i as int));
        let ghost after = pieces(all.take(i + 1));
        proof {
            assert(all.take(i + 1).drop_last() == all.take(i as int));
            assert(all.take(i + 1).last() == all[i as int]);
        }
        if chars[i] == '/' {
            assert(after.drop_last() == before);
            if is_meaningful(current.as_str()) {
                proof {
                    lemma_push_text(list@, current);
                }
                list.push(current);
            }
            current = String::new();
        } else {
            assert(after.drop_last() == before.drop_last());
            current.push(chars[i]);
        }
        i += 1;
    }
    assert(all.take(all.len() as int) == all);
    if is_meaningful(current.as_str()) {
        proof {
            lemma_push_text(list@, current);
        }
        list.push(current);
    }
    list
}

/// Whether some segment climbs to the parent directory.
pub fn has_climb(list: &Vec<String>) -> (r: bool)
    ensures
        r == texts(list@).contains(seq!['.', '.']),
{
    let mut i: usize = 0;
    while i < list.len()
        invariant
            i <= list@.len(),
            forall|j: int| 0 <= j < i ==> (#[trigger] list@[j])@ != seq!['.', '.'],
        decreases list@.len() - i,
    {
        let chars: Vec<char> = characters(list[i].as_str());
        if chars.len() == 2 && chars[0] == '.' && chars[1] == '.' {
            assert(list@[i as int]@ == seq!['.', '.']);
            assert(texts(list@)[i as int] == seq!['.', '.']);
            return true;
        }
        i += 1;
    }
    proof {
        if texts(list@).contains(seq!['.', '.']) {
            let k = choose|k: int|
                0 <= k < texts(list@).len() && texts(list@)[k] == seq!['.', '.'];
            assert(list@[k]@ == seq!['.', '.']);
        }
    }
    false
}

/// The absolute path of a list of segments.
pub fn path_of(list: &Vec<String>) -> (path: String)
    ensures
        path@ == rooted(texts(list@)),
{
    let ghost all = texts(list@);
    let mut path: String = String::new();
    let mut i: usize = 0;
    assert(all.take(0) == Seq::<Seq<char>>::empty());
    assert(path@ == rooted(all.take(0)));
    while i < list.len()
        invariant
            i <= list@.len(),
            all == texts(list@),
            path@ == rooted(all.take(i as int)),
        decreases list@.len() - i,
    {
        proof {
            assert(all.take(i + 1).drop_last() == all.take(i as int));
            assert(all.take(i + 1).last() == list@[i as int]@);
        }
        path.push('/');
        path.append(list[i].as_str());
        i += 1;
    }
    assert(all.take(all.len() as int) == all);
    path
}

proof fn lemma_pieces_nonempty(path: Seq<char>)
    ensures
        pieces(path).len() > 0,
    decreases path.len(),
{
    if path.len() > 0 {
        lemma_pieces_nonempty(path.drop_last());
    }
}

/// Text without a slash is one piece.
pub proof fn law_slash_free_text_is_one_piece(text: Seq<char>)
    requires
        !text.contains('/'),
    ensures
        pieces(text) == seq![text],
    decreases text.len(),
{
    if text.len() > 0 {
        let shorter = text.drop_last();
        assert(text.contains(text.last()));
        assert forall|c: char| shorter.contains(c) implies text.contains(c) by {
            let i = choose|i: int| 0 <= i < shorter.len() && shorter[i] == c;
            assert(text[i] == c);
        }
        law_slash_free_text_is_one_piece(shorter);
        assert(shorter.push(text.last()) == text);
    } else {
        assert(text == Seq::<char>::empty());
    }
    assert(pieces(text) == seq![text]);
}

/// Cutting adds one piece per slash-free extension after a slash.
proof fn lemma_pieces_extended(path: Seq<char>, piece: Seq<char>)
    requires
        !piece.contains('/'),
    ensures
        pieces(path.push('/') + piece) == pieces(path).push(piece),
    decreases piece.len(),
{
    lemma_pieces_nonempty(path);
    if piece.len() == 0 {
        assert(path.push('/') + piece == path.push('/'));
        assert(path.push('/').drop_last() == path);
        assert(piece == Seq::<char>::empty());
    } else {
        let shorter = piece.drop_last();
        assert(piece.contains(piece.last()));
        assert forall|c: char| shorter.contains(c) implies piece.contains(c) by {
            let i = choose|i: int| 0 <= i < shorter.len() && shorter[i] == c;
            assert(piece[i] == c);
        }
        lemma_pieces_extended(path, shorter);
        let longer = path.push('/') + piece;
        assert(longer.drop_last() == path.push('/') + shorter);
        assert(longer.last() == piece.last());
        assert(shorter.push(piece.last()) == piece);
        assert(pieces(longer) == pieces(path).push(piece));
    }
}

/// A slash starts a new piece: text without a slash after it is one more piece.
pub proof fn law_text_after_a_slash_is_a_piece(path: Seq<char>, piece: Seq<char>)
    requires
        !piece.contains('/'),
    ensures
        pieces(path.push('/') + piece) == pieces(path).push(piece),
{
    lemma_pieces_extended(path, piece);
}

/// No piece of a path holds a slash.
proof fn lemma_pieces_have_no_slash(path: Seq<char>)
    ensures
        forall|i: int| 0 <= i < pieces(path).len() ==> !(#[trigger] pieces(path)[i]).contains('/'),
    decreases path.len(),
{
    lemma_pieces_nonempty(path);
    if path.len() > 0 {
        let before = pieces(path.drop_last());
        let after = pieces(path);
        lemma_pieces_nonempty(path.drop_last());
        lemma_pieces_have_no_slash(path.drop_last());
        assert forall|i: int| 0 <= i < after.len() implies !(#[trigger] after[i]).contains('/') by {
            if path.last() != '/' && i == before.len() - 1 {
                let grown = before.last().push(path.last());
                if grown.contains('/') {
                    let k = choose|k: int| 0 <= k < grown.len() && grown[k] == '/';
                    assert(before[before.len() - 1][k] == '/');
                }
            } else if i < before.len() {
                assert(after[i] == before[i]);
            }
        }
    }
}

proof fn lemma_meaningful_from(list: Seq<Seq<char>>)
    ensures
        forall|i: int|
            0 <= i < meaningful(list).len() ==> list.contains(#[trigger] meaningful(list)[i])
                && names_something(meaningful(list)[i]),
    decreases list.len(),
{
    if list.len() > 0 {
        let rest = list.drop_last();
        lemma_meaningful_from(rest);
        assert forall|i: int| 0 <= i < meaningful(list).len() implies list.contains(
            #[trigger] meaningful(list)[i],
        ) && names_something(meaningful(list)[i]) by {
            if i < meaningful(rest).len() {
                let piece = meaningful(rest)[i];
                let k = choose|k: int| 0 <= k < rest.len() && rest[k] == piece;
                assert(list[k] == piece);
            } else {
                assert(list[list.len() - 1] == list.last());
            }
        }
    }
}

/// Every segment of a path names something and holds no slash.
pub proof fn lemma_segments_are_names(path: Seq<char>)
    ensures
        forall|i: int|
            0 <= i < segments(path).len() ==> names_something(#[trigger] segments(path)[i])
                && !segments(path)[i].contains('/'),
{
    lemma_pieces_have_no_slash(path);
    lemma_meaningful_from(pieces(path));
    assert forall|i: int| 0 <= i < segments(path).len() implies names_something(
        #[trigger] segments(path)[i],
    ) && !segments(path)[i].contains('/') by {
        let piece = segments(path)[i];
        let k = choose|k: int| 0 <= k < pieces(path).len() && pieces(path)[k] == piece;
        assert(!pieces(path)[k].contains('/'));
    }
}

/// A path made of segments has those segments.
pub proof fn lemma_segments_of_rooted(list: Seq<Seq<char>>)
    requires
        forall|i: int|
            0 <= i < list.len() ==> names_something(#[trigger] list[i]) && !list[i].contains('/'),
    ensures
        segments(rooted(list)) == list,
        list.len() > 0 ==> absolute(rooted(list)),
    decreases list.len(),
{
    if list.len() > 0 {
        let rest = list.drop_last();
        assert forall|i: int| 0 <= i < rest.len() implies names_something(#[trigger] rest[i])
            && !rest[i].contains('/') by {
            assert(rest[i] == list[i]);
        }
        lemma_segments_of_rooted(rest);
        let last = list[list.len() - 1];
        lemma_pieces_extended(rooted(rest), last);
        assert(pieces(rooted(list)).drop_last() == pieces(rooted(rest)));
        assert(rest.push(last) == list);
        assert(names_something(list.last()));
        assert(meaningful(pieces(rooted(list))) == rest.push(last));
    } else {
        assert(pieces(rooted(list)).drop_last() =~= Seq::<Seq<char>>::empty());
        reveal_with_fuel(meaningful, 2);
        assert(meaningful(pieces(rooted(list))) =~= list);
    }
}

/// Pieces with a slash between each two.
pub open spec fn put_together(list: Seq<Seq<char>>) -> Seq<char>
    decreases list.len(),
{
    if list.len() == 0 {
        Seq::empty()
    } else if list.len() == 1 {
        list[0]
    } else {
        put_together(list.drop_last()) + seq!['/'] + list.last()
    }
}

/// The pieces of a path have no slashes, and with slashes between them they are the
/// path again.
pub proof fn law_pieces_make_up_the_path(path: Seq<char>)
    ensures
        pieces(path).len() > 0,
        put_together(pieces(path)) == path,
        forall|i: int| 0 <= i < pieces(path).len() ==> !(#[trigger] pieces(path)[i]).contains('/'),
    decreases path.len(),
{
    lemma_pieces_nonempty(path);
    lemma_pieces_have_no_slash(path);
    if path.len() > 0 {
        let shorter = path.drop_last();
        law_pieces_make_up_the_path(shorter);
        let before = pieces(shorter);
        let after = pieces(path);
        if path.last() == '/' {
            assert(after.drop_last() == before);
            assert(after.last() == Seq::<char>::empty());
            assert(after.len() >= 2);
        } else {
            assert(after.drop_last() == before.drop_last());
            assert(after.last() == before.last().push(path.last()));
            if before.len() == 1 {
                assert(after.len() == 1);
                assert(after[0] == before[0].push(path.last()));
            }
        }
        assert(put_together(after) == put_together(before).push(path.last()));
        assert(shorter.push(path.last()) == path);
    } else {
        assert(path == Seq::<char>::empty());
    }
}

/// The segments of a path are those of its pieces that are neither empty nor a single
/// dot, in their order.
pub proof fn law_segments_are_the_named_pieces(path: Seq<char>)
    ensures
        segments(path) == pieces(path).filter(
            |piece: Seq<char>| piece.len() > 0 && piece != seq!['.'],
        ),
        climbs(path) <==> pieces(path).contains(seq!['.', '.']),
        absolute(path) <==> path.len() > 0 && pieces(path)[0].len() == 0,
{
    lemma_meaningful_is_a_filter(pieces(path));
    let up = seq!['.', '.'];
    if pieces(path).contains(up) {
        let i = choose|i: int| 0 <= i < pieces(path).len() && pieces(path)[i] == up;
        assert(up != seq!['.']) by {
            assert(up.len() != seq!['.'].len());
        }
        lemma_meaningful_keeps(pieces(path), i);
    }
    if segments(path).contains(up) {
        lemma_meaningful_from(pieces(path));
        let i = choose|i: int| 0 <= i < segments(path).len() && segments(path)[i] == up;
        assert(pieces(path).contains(segments(path)[i]));
    }
    lemma_first_piece(path);
}

proof fn lemma_first_piece(path: Seq<char>)
    ensures
        pieces(path).len() > 0,
        absolute(path) <==> path.len() > 0 && pieces(path)[0].len() == 0,
    decreases path.len(),
{
    lemma_pieces_nonempty(path);
    if path.len() == 1 {
        assert(path.drop_last() == Seq::<char>::empty());
        assert(path[0] == path.last());
        lemma_pieces_nonempty(path.drop_last());
        reveal_with_fuel(pieces, 2);
    } else if path.len() > 1 {
        let shorter = path.drop_last();
        lemma_first_piece(shorter);
        assert(shorter[0] == path[0]);
        lemma_longer_first_piece(shorter);
    }
}

proof fn lemma_longer_first_piece(path: Seq<char>)
    requires
        path.len() > 0,
    ensures
        pieces(path).len() > 0,
        pieces(path)[0].len() == 0 ==> pieces(path).len() > 1,
    decreases path.len(),
{
    lemma_pieces_nonempty(path);
    lemma_pieces_nonempty(path.drop_last());
    if path.last() != '/' && pieces(path).len() > 1 {
    } else if path.last() != '/' {
        assert(pieces(path)[0] == pieces(path.drop_last()).last().push(path.last()));
    }
}

proof fn lemma_meaningful_is_a_filter(list: Seq<Seq<char>>)
    ensures
        meaningful(list) == list.filter(
            |piece: Seq<char>| piece.len() > 0 && piece != seq!['.'],
        ),
    decreases list.len(),
{
    reveal(Seq::filter);
    if list.len() > 0 {
        lemma_meaningful_is_a_filter(list.drop_last());
    }
}

proof fn lemma_meaningful_keeps(list: Seq<Seq<char>>, i: int)
    requires
        0 <= i < list.len(),
        names_something(list[i]),
    ensures
        meaningful(list).contains(list[i]),
    decreases list.len(),
{
    let before = meaningful(list.drop_last());
    let all = meaningful(list);
    if i == list.len() - 1 {
        assert(all[all.len() - 1] == list[i]);
    } else {
        lemma_meaningful_keeps(list.drop_last(), i);
        let k = choose|k: int| 0 <= k < before.len() && before[k] == list[i];
        assert(all[k] == list[i]);
    }
}

/// The pieces of the path of a list of segments are those segments, after the nothing
/// that stands before the first slash.
pub proof fn law_rooted_path_is_its_segments(list: Seq<Seq<char>>)
    requires
        list.len() > 0,
        forall|i: int| 0 <= i < list.len() ==> !(#[trigger] list[i]).contains('/'),
    ensures
        pieces(rooted(list)) == seq![Seq::<char>::empty()] + list,
    decreases list.len(),
{
    let rest = list.drop_last();
    let last = list[list.len() - 1];
    law_text_after_a_slash_is_a_piece(rooted(rest), last);
    if rest.len() > 0 {
        assert forall|i: int| 0 <= i < rest.len() implies !(#[trigger] rest[i]).contains('/') by {
            assert(rest[i] == list[i]);
        }
        law_rooted_path_is_its_segments(rest);
    } else {
        assert(rooted(rest) == Seq::<char>::empty());
        assert(pieces(rooted(rest)) == seq![Seq::<char>::empty()]);
    }
    assert(pieces(rooted(list)) == seq![Seq::<char>::empty()] + list);
}

/// What comes after the last slash is the last piece.
pub proof fn law_base_name_is_the_last_piece(path: Seq<char>)
    ensures
        pieces(path).len() > 0,
        base_name(path) == pieces(path)[pieces(path).len() - 1],
    decreases path.len(),
{
    lemma_pieces_nonempty(path);
    if path.len() > 0 {
        lemma_pieces_nonempty(path.drop_last());
        law_base_name_is_the_last_piece(path.drop_last());
    }
}

/// A name in a directory: the pieces of the directory, then those of the name. A
/// directory that ends in a slash has its last, empty piece replaced; an empty
/// directory, and an absolute name, leave the name alone.
pub proof fn law_joined_path_has_the_pieces_of_both(dir: Seq<char>, name: Seq<char>)
    requires
        !name.contains('/'),
    ensures
        dir.len() == 0 ==> joined(dir, name) == name,
        dir.len() > 0 && dir[dir.len() - 1] == '/' ==> pieces(joined(dir, name)) == pieces(
            dir,
        ).update(pieces(dir).len() - 1, name),
        dir.len() > 0 && dir[dir.len() - 1] != '/' ==> pieces(joined(dir, name)) == pieces(
            dir,
        ).push(name),
        forall|other: Seq<char>|
            absolute(other) ==> #[trigger] joined(dir, other) == other,
{
    if name.len() > 0 {
        assert(name.contains(name[0]));
    }
    if dir.len() == 0 {
        assert(dir + name == name);
    } else if dir.last() == '/' {
        let start = dir.drop_last();
        assert(start.push('/') == dir);
        law_text_after_a_slash_is_a_piece(start, name);
        assert(pieces(dir) == pieces(start).push(Seq::<char>::empty()));
        assert(pieces(start).push(name) == pieces(dir).update(pieces(dir).len() - 1, name));
    } else {
        law_text_after_a_slash_is_a_piece(dir, name);
    }
}

} // verus!
