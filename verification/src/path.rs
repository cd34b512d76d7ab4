//! Paths as text, with `/` between names.
use crate::text::{chars_of, opt_text, same_text, texts};
use vstd::prelude::*;

verus! {

/// The pieces of a path between its slashes, empty pieces included.
pub open spec fn split(path: Seq<char>) -> Seq<Seq<char>>
    decreases path.len(),
{
    if path.len() == 0 {
        seq![seq![]]
    } else {
        let before = split(path.drop_last());
        if path.last() == '/' {
            before.push(seq![])
        } else {
            before.drop_last().push(before.last().push(path.last()))
        }
    }
}

/// The pieces of a path that name something: neither empty nor `.`.
pub open spec fn names(path: Seq<char>) -> Seq<Seq<char>> {
    split(path).filter(|piece: Seq<char>| piece.len() > 0 && piece != "."@)
}

/// The last name of a path, unless there is none or it is `..`.
pub open spec fn last_name(path: Seq<char>) -> Option<Seq<char>> {
    let all = names(path);
    if all.len() == 0 || all.last() == ".."@ {
        None
    } else {
        Some(all.last())
    }
}

/// The pieces of a path between its slashes.
pub fn split_path(path: &str) -> (pieces: Vec<String>)
    ensures
        texts(pieces@) == split(path@),
{
    let chars = chars_of(path);
    let mut pieces: Vec<String> = Vec::new();
    let mut piece = String::new();
    let mut i: usize = 0;
    while i < chars.len()
        invariant
            i <= chars.len(),
            chars@ == path@,
            texts(pieces@).push(piece@) == split(path@.take(i as int)),
        decreases chars.len() - i,
    {
        proof {
            let next = path@.take(i + 1);
            assert(next.drop_last() == path@.take(i as int));
            assert(next.last() == path@[i as int]);
            assert(texts(pieces@).push(piece@).drop_last() == texts(pieces@));
        }
        if chars[i] == '/' {
            let ghost before = pieces@;
            let ghost closed = piece;
            pieces.push(piece);
            piece = String::new();
            assert(texts(pieces@) == texts(before).push(closed@));
        } else {
            piece.push(chars[i]);
        }
        i = i + 1;
    }
    assert(path@.take(i as int) == path@);
    let ghost before = pieces@;
    let ghost closed = piece;
    pieces.push(piece);
    assert(texts(pieces@) == texts(before).push(closed@));
    pieces
}

/// Whether one of the pieces of a path is `name`.
pub fn has_component(path: &str, name: &str) -> (has: bool)
    ensures
        has == split(path@).contains(name@),
{
    let pieces = split_path(path);
    let mut i: usize = 0;
    while i < pieces.len()
        invariant
            i <= pieces.len(),
            texts(pieces@) == split(path@),
            !split(path@).take(i as int).contains(name@),
        decreases pieces.len() - i,
    {
        assert(texts(pieces@)[i as int] == pieces[i as int]@);
        if same_text(&pieces[i], name) {
            return true;
        }
        assert(split(path@).take(i + 1) == split(path@).take(i as int).push(split(path@)[i as int]));
        i = i + 1;
    }
    assert(split(path@).take(i as int) == split(path@));
    false
}

/// The last name of a path, unless there is none or it is `..`.
pub fn file_name(path: &str) -> (name: Option<String>)
    ensures
        opt_text(name) == last_name(path@),
{
    let mut pieces = split_path(path);
    let ghost keep = |piece: Seq<char>| piece.len() > 0 && piece != "."@;
    assert(split(path@) == texts(pieces@));
    while pieces.len() > 0
        invariant
            keep == (|piece: Seq<char>| piece.len() > 0 && piece != "."@),
            names(path@) == texts(pieces@).filter(keep),
        decreases pieces.len(),
    {
        let ghost before = pieces@;
        if let Some(piece) = pieces.pop() {
            proof {
                assert(texts(before).drop_last() == texts(pieces@));
                assert(texts(before).last() == piece@);
                reveal(Seq::filter);
            }
            if !piece.as_str().is_empty() && !same_text(&piece, ".") {
                assert(keep(piece@));
                assert(names(path@).last() == piece@);
                if same_text(&piece, "..") {
                    return None;
                }
                return Some(piece);
            }
        }
    }
    proof {
        reveal(Seq::filter);
    }
    None
}

/// The pieces one after the other, with a slash between them.
pub open spec fn slashed(pieces: Seq<Seq<char>>) -> Seq<char>
    decreases pieces.len(),
{
    if pieces.len() == 0 {
        seq![]
    } else if pieces.len() == 1 {
        pieces[0]
    } else {
        slashed(pieces.drop_last()).push('/') + pieces.last()
    }
}

/// The pieces of a path make up the path, with a slash between them; there is at
/// least one, and none of them holds a slash.
pub proof fn law_pieces_make_up_the_path(path: Seq<char>)
    ensures
        split(path).len() > 0,
        slashed(split(path)) == path,
        forall|i: int| 0 <= i < split(path).len() ==> !(#[trigger] split(path)[i]).contains('/'),
    decreases path.len(),
{
    if path.len() > 0 {
        let start = path.drop_last();
        law_pieces_make_up_the_path(start);
        let before = split(start);
        let pieces = split(path);
        assert(path =~= start.push(path.last()));
        if path.last() == '/' {
            assert(pieces.drop_last() =~= before);
            assert(slashed(pieces) =~= path);
        } else {
            assert(pieces.drop_last() =~= before.drop_last());
            assert(pieces.last() == before.last().push(path.last()));
            assert(slashed(pieces) =~= path);
            assert forall|i: int| 0 <= i < pieces.len() implies !(
            #[trigger] pieces[i]).contains('/') by {
                assert(!before[i].contains('/'));
                if i == pieces.len() - 1 && pieces[i].contains('/') {
                    let k = choose|k: int| 0 <= k < pieces[i].len() && pieces[i][k] == '/';
                    assert(before[i][k] == '/');
                }
            }
        }
    }
}

/// A path starts with its first piece.
pub proof fn law_path_starts_with_its_first_piece(path: Seq<char>)
    ensures
        split(path).len() > 0,
        split(path)[0].is_prefix_of(path),
    decreases path.len(),
{
    if path.len() > 0 {
        let start = path.drop_last();
        law_path_starts_with_its_first_piece(start);
        let before = split(start);
        if path.last() != '/' && before.len() == 1 {
            law_pieces_make_up_the_path(start);
            assert(before[0] == start);
            assert(split(path)[0] =~= path);
        } else {
            assert(split(path)[0] == before[0]);
            assert(before[0] =~= path.take(before[0].len() as int));
        }
    }
}

/// A slash parts the pieces before it from those behind it, and a text without a
/// slash is one piece.
pub proof fn law_slash_parts_the_pieces(before: Seq<char>, behind: Seq<char>)
    ensures
        split(before.push('/') + behind) == split(before) + split(behind),
        !before.contains('/') ==> split(before) == seq![before],
    decreases behind.len(),
{
    law_pieces_make_up_the_path(before);
    let path = before.push('/') + behind;
    if behind.len() == 0 {
        assert(path =~= before.push('/'));
        assert(path.drop_last() =~= before);
        assert(split(path) =~= split(before) + split(behind));
    } else {
        let start = behind.drop_last();
        law_slash_parts_the_pieces(before, start);
        law_pieces_make_up_the_path(start);
        assert(path.drop_last() =~= before.push('/') + start);
        assert(path.last() == behind.last());
        assert(split(path) =~= split(before) + split(behind));
    }
    if !before.contains('/') {
        lemma_one_piece(before);
    }
}

/// A text without a slash is one piece.
proof fn lemma_one_piece(text: Seq<char>)
    requires
        !text.contains('/'),
    ensures
        split(text) == seq![text],
    decreases text.len(),
{
    if text.len() > 0 {
        let start = text.drop_last();
        assert(!start.contains('/')) by {
            if start.contains('/') {
                let k = choose|k: int| 0 <= k < start.len() && start[k] == '/';
                assert(text[k] == '/');
            }
        }
        lemma_one_piece(start);
        assert(text[text.len() - 1] == text.last());
        assert(split(text) =~= seq![start.push(text.last())]);
        assert(start.push(text.last()) =~= text);
    } else {
        assert(text =~= seq![]);
    }
}

/// Whether `name` stands in a path as a whole piece: alone, at the start, at the
/// end, or between two slashes.
pub open spec fn stands_in(path: Seq<char>, name: Seq<char>) -> bool {
    exists|before: Seq<char>, behind: Seq<char>|
        path == before + name + behind && (before.len() == 0 || before.last() == '/') && (
        behind.len() == 0 || behind[0] == '/') && #[trigger] beside(before, behind)
}

/// Two texts that stand beside a piece of a path.
pub open spec fn beside(before: Seq<char>, behind: Seq<char>) -> bool {
    true
}

/// The pieces of a path are the names that stand in it between its slashes, and a
/// name that stands there is one of the pieces.
pub proof fn law_pieces_are_what_stands_between_slashes(path: Seq<char>, name: Seq<char>)
    requires
        !name.contains('/'),
    ensures
        split(path).contains(name) <==> stands_in(path, name),
{
    if split(path).contains(name) {
        let i = choose|i: int| 0 <= i < split(path).len() && split(path)[i] == name;
        lemma_piece_stands_in(path, i);
    }
    if stands_in(path, name) {
        let (before, behind) = choose|before: Seq<char>, behind: Seq<char>|
            path == before + name + behind && (before.len() == 0 || before.last() == '/') && (
            behind.len() == 0 || behind[0] == '/') && #[trigger] beside(before, behind);
        lemma_whole_piece(before, name, behind);
    }
}

/// A name between slashes is a piece.
proof fn lemma_whole_piece(before: Seq<char>, name: Seq<char>, behind: Seq<char>)
    requires
        !name.contains('/'),
        before.len() == 0 || before.last() == '/',
        behind.len() == 0 || behind[0] == '/',
    ensures
        split(before + name + behind).contains(name),
{
    law_slash_parts_the_pieces(name, behind.drop_first());
    let tail = if behind.len() == 0 {
        seq![]
    } else {
        split(behind.drop_first())
    };
    let end = name + behind;
    assert(split(end) == seq![name] + tail) by {
        if behind.len() == 0 {
            assert(end =~= name);
            assert(seq![name] + tail =~= seq![name]);
        } else {
            assert(end =~= name.push('/') + behind.drop_first());
        }
    }
    let path = before + name + behind;
    if before.len() == 0 {
        assert(path =~= end);
        assert(split(path)[0] == name);
    } else {
        let start = before.drop_last();
        assert(path =~= start.push('/') + end);
        law_slash_parts_the_pieces(start, end);
        assert(split(path)[split(start).len() as int] == name);
    }
}

/// A piece stands in its path.
proof fn lemma_piece_stands_in(path: Seq<char>, i: int)
    requires
        0 <= i < split(path).len(),
    ensures
        stands_in(path, split(path)[i]),
    decreases path.len(),
{
    let none = Seq::<char>::empty();
    if path.len() == 0 {
        assert(path =~= none + split(path)[i] + none);
        assert(beside(none, none));
    } else {
        let start = path.drop_last();
        let old = split(start);
        law_pieces_make_up_the_path(start);
        assert(path =~= start.push(path.last()));
        if path.last() == '/' && i == split(path).len() - 1 {
            assert(split(path)[i] =~= none);
            assert(path =~= path + none + none);
            assert(path == path + split(path)[i] + none);
            assert(beside(path, none));
        } else if path.last() == '/' || i < split(path).len() - 1 {
            assert(split(path)[i] == old[i]);
            lemma_piece_stands_in(start, i);
            let (before, behind) = choose|before: Seq<char>, behind: Seq<char>|
                start == before + old[i] + behind && (before.len() == 0 || before.last() == '/')
                    && (behind.len() == 0 || behind[0] == '/') && #[trigger] beside(before, behind);
            if behind.len() > 0 || path.last() == '/' {
                let longer = behind.push(path.last());
                assert(path =~= before + old[i] + longer);
                assert(beside(before, longer));
            } else {
                lemma_piece_before_the_last(start, i);
                let (first, rest) = choose|first: Seq<char>, rest: Seq<char>|
                    start == first + old[i] + rest && (first.len() == 0 || first.last() == '/')
                        && rest.len() > 0 && rest[0] == '/' && #[trigger] beside(first, rest);
                let longer = rest.push(path.last());
                assert(path =~= first + old[i] + longer);
                assert(beside(first, longer));
            }
        } else {
            lemma_last_piece(start);
            let before = choose|before: Seq<char>|
                start == before + old.last() && (before.len() == 0 || before.last() == '/')
                    && #[trigger] beside(before, none);
            assert(split(path)[i] == old.last().push(path.last()));
            assert(path =~= before + split(path)[i] + none);
            assert(beside(before, none));
        }
    }
}

/// A path ends with its last piece.
proof fn lemma_last_piece(path: Seq<char>)
    ensures
        exists|before: Seq<char>|
            path == before + split(path).last() && (before.len() == 0 || before.last() == '/')
                && #[trigger] beside(before, Seq::<char>::empty()),
    decreases path.len(),
{
    let none = Seq::<char>::empty();
    if path.len() == 0 {
        assert(path =~= none + split(path).last());
        assert(beside(none, none));
    } else {
        let start = path.drop_last();
        law_pieces_make_up_the_path(start);
        assert(path =~= start.push(path.last()));
        if path.last() == '/' {
            assert(split(path).last() =~= none);
            assert(path =~= path + none);
            assert(path == path + split(path).last());
            assert(beside(path, none));
        } else {
            lemma_last_piece(start);
            let before = choose|before: Seq<char>|
                start == before + split(start).last() && (before.len() == 0 || before.last()
                    == '/') && #[trigger] beside(before, none);
            assert(path =~= before + split(path).last());
            assert(beside(before, none));
        }
    }
}

/// Behind a piece that is not the last one there is a slash.
proof fn lemma_piece_before_the_last(path: Seq<char>, i: int)
    requires
        0 <= i < split(path).len() - 1,
    ensures
        exists|before: Seq<char>, behind: Seq<char>|
            path == before + split(path)[i] + behind && (before.len() == 0 || before.last() == '/')
                && behind.len() > 0 && behind[0] == '/' && #[trigger] beside(before, behind),
    decreases path.len(),
{
    if path.len() > 0 {
        let none = Seq::<char>::empty();
        let start = path.drop_last();
        let old = split(start);
        law_pieces_make_up_the_path(start);
        assert(path =~= start.push(path.last()));
        assert(split(path)[i] == old[i]);
        if i == old.len() - 1 {
            lemma_last_piece(start);
            let before = choose|before: Seq<char>|
                start == before + old.last() && (before.len() == 0 || before.last() == '/')
                    && #[trigger] beside(before, none);
            let behind = seq!['/'];
            assert(path =~= before + old[i] + behind);
            assert(beside(before, behind));
        } else {
            lemma_piece_before_the_last(start, i);
            let (before, behind) = choose|before: Seq<char>, behind: Seq<char>|
                start == before + old[i] + behind && (before.len() == 0 || before.last() == '/')
                    && behind.len() > 0 && behind[0] == '/' && #[trigger] beside(before, behind);
            let longer = behind.push(path.last());
            assert(path =~= before + old[i] + longer);
            assert(beside(before, longer));
        }
    }
}

/// The last name of a path is what stands behind its last slash, unless that is
/// `..`, which names nothing.
pub proof fn law_last_name_stands_behind_the_last_slash(dir: Seq<char>, name: Seq<char>)
    requires
        name.len() > 0,
        !name.contains('/'),
        name != "."@,
    ensures
        name != ".."@ ==> last_name(name) == Some(name) && last_name(dir.push('/') + name) == Some(
            name,
        ),
        name == ".."@ ==> last_name(name) is None && last_name(dir.push('/') + name) is None,
{
    let keep = |piece: Seq<char>| piece.len() > 0 && piece != "."@;
    law_slash_parts_the_pieces(dir, name);
    law_slash_parts_the_pieces(name, dir);
    reveal(Seq::filter);
    let one = seq![name];
    assert(one.drop_last() =~= seq![]);
    assert(one.last() == name);
    assert(one.filter(keep) =~= one);
    Seq::filter_distributes_over_add(split(dir), one, keep);
    assert(names(name) == one);
    assert(names(dir.push('/') + name) == split(dir).filter(keep) + one);
}

/// A slash or `/.` at the end of a path leaves its last name as it is, and there is
/// none in an empty path or in `.` alone.
pub proof fn law_last_name_does_not_mind_the_end(path: Seq<char>)
    ensures
        last_name(path.push('/')) == last_name(path),
        last_name(path.push('/').push('.')) == last_name(path),
        last_name(Seq::<char>::empty()) is None,
        last_name(seq!['.']) is None,
{
    let keep = |piece: Seq<char>| piece.len() > 0 && piece != "."@;
    let none = Seq::<char>::empty();
    let dot = seq!['.'];
    reveal_strlit(".");
    assert("."@ =~= dot);
    law_slash_parts_the_pieces(path, none);
    law_slash_parts_the_pieces(path, dot);
    law_slash_parts_the_pieces(dot, none);
    law_slash_parts_the_pieces(none, none);
    assert(path.push('/') + none =~= path.push('/'));
    assert(path.push('/') + dot =~= path.push('/').push('.'));
    assert(!dot.contains('/'));
    reveal(Seq::filter);
    assert(split(none) =~= seq![none]);
    assert(split(dot) =~= seq![dot]);
    assert(split(none).drop_last() =~= Seq::<Seq<char>>::empty());
    assert(split(dot).drop_last() =~= Seq::<Seq<char>>::empty());
    assert(Seq::<Seq<char>>::empty().filter(keep) =~= seq![]);
    assert(split(none).last() == none && split(dot).last() == dot);
    assert(split(none).filter(keep) =~= seq![]);
    assert(split(dot).filter(keep) =~= seq![]);
    Seq::filter_distributes_over_add(split(path), split(none), keep);
    Seq::filter_distributes_over_add(split(path), split(dot), keep);
    assert(names(path.push('/')) =~= names(path));
    assert(names(path.push('/').push('.')) =~= names(path));
}

} // verus!
