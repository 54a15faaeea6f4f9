//! What holds of components, relative names and joined paths.

use vstd::prelude::*;
use crate::path::components;
use crate::path::depth_after;
use crate::path::is_absolute;
use crate::path::is_safe_name;
use crate::path::is_under;
use crate::path::join;
use crate::path::joined;
use crate::path::level_change;
use crate::path::relative_to;
use crate::path::stays_inside;

verus! {

/// Whether a piece is non-empty and free of separators.
pub open spec fn clean_piece(piece: Seq<char>) -> bool {
    piece.len() > 0 && forall|j: int| 0 <= j < piece.len() ==> piece[j] != '/'
}

/// Whether every piece is non-empty and free of separators.
pub open spec fn clean_pieces(parts: Seq<Seq<char>>) -> bool {
    forall|i: int| 0 <= i < parts.len() ==> clean_piece(#[trigger] parts[i])
}

/// Every component is non-empty and free of separators, and a path that does
/// not end in a separator has at least one.
pub proof fn lemma_components_clean(s: Seq<char>)
    ensures
        clean_pieces(components(s)),
        s.len() > 0 && s.last() != '/' ==> components(s).len() > 0,
    decreases s.len(),
{
    if s.len() > 0 {
        let init = components(s.drop_last());
        let c = s.last();
        lemma_components_clean(s.drop_last());
        if s.len() >= 2 {
            assert(s.drop_last().last() == s[s.len() - 2]);
        }
        assert forall|i: int| 0 <= i < components(s).len() implies clean_piece(
            #[trigger] components(s)[i],
        ) by {
            if c == '/' {
            } else if s.len() >= 2 && s[s.len() - 2] != '/' {
                if i == init.len() - 1 {
                    assert(clean_piece(init[i]));
                    assert(components(s)[i] == init[i].push(c));
                } else {
                    assert(components(s)[i] == init[i]);
                }
            } else {
                if i == init.len() {
                    assert(components(s)[i] == seq![c]);
                } else {
                    assert(components(s)[i] == init[i]);
                }
            }
        }
    }
}

/// A clean piece is its own single component.
pub proof fn lemma_components_of_piece(piece: Seq<char>)
    requires
        clean_piece(piece),
    ensures
        components(piece) == seq![piece],
    decreases piece.len(),
{
    let init = piece.drop_last();
    if piece.len() == 1 {
        assert(components(init) == Seq::<Seq<char>>::empty());
        assert(seq![piece.last()] == piece);
    } else {
        assert(clean_piece(init));
        lemma_components_of_piece(init);
        assert(piece[piece.len() - 2] != '/');
        assert(init.push(piece.last()) == piece);
        assert(seq![init].update(0, piece) == seq![piece]);
    }
}

/// The components of two paths put together across a separator are those of
/// the first followed by those of the second.
pub proof fn lemma_components_concat(a: Seq<char>, b: Seq<char>)
    ensures
        components(a + seq!['/'] + b) == components(a) + components(b),
    decreases b.len(),
{
    let whole = a + seq!['/'] + b;
    if b.len() == 0 {
        assert(whole.drop_last() == a);
        assert(components(a) + components(b) == components(a));
    } else {
        let init = b.drop_last();
        let c = b.last();
        lemma_components_concat(a, init);
        lemma_components_clean(init);
        assert(whole.drop_last() == a + seq!['/'] + init);
        assert(whole.last() == c);
        if init.len() > 0 {
            assert(whole[whole.len() - 2] == init.last());
            assert(b[b.len() - 2] == init.last());
        } else {
            assert(whole[whole.len() - 2] == '/');
        }
        if c == '/' {
        } else if init.len() > 0 && init.last() != '/' {
            let front = components(a);
            let back = components(init);
            assert((front + back).update(
                (front + back).len() - 1,
                (front + back).last().push(c),
            ) == front + back.update(back.len() - 1, back.last().push(c)));
        } else {
            let front = components(a);
            let back = components(init);
            assert((front + back).push(seq![c]) == front + back.push(seq![c]));
        }
    }
}

/// Joining clean pieces and splitting again gives the pieces back.
pub proof fn lemma_components_of_join(parts: Seq<Seq<char>>)
    requires
        clean_pieces(parts),
    ensures
        components(join(parts)) == parts,
    decreases parts.len(),
{
    if parts.len() == 1 {
        lemma_components_of_piece(parts[0]);
        assert(seq![parts[0]] == parts);
    } else if parts.len() > 1 {
        let init = parts.drop_last();
        assert(clean_pieces(init)) by {
            assert forall|i: int| 0 <= i < init.len() implies clean_piece(#[trigger] init[i]) by {
                assert(init[i] == parts[i]);
            }
        }
        lemma_components_of_join(init);
        lemma_components_of_piece(parts.last());
        lemma_components_concat(join(init), parts.last());
        assert(init + seq![parts.last()] == parts);
    }
}

/// Joined clean pieces begin and end as the first and last piece do.
pub proof fn lemma_join_ends(parts: Seq<Seq<char>>)
    requires
        clean_pieces(parts),
    ensures
        parts.len() == 0 ==> join(parts).len() == 0,
        parts.len() > 0 ==> join(parts).len() > 0 && join(parts)[0] == parts[0][0] && join(
            parts,
        ).last() == parts.last().last(),
    decreases parts.len(),
{
    if parts.len() > 1 {
        let init = parts.drop_last();
        assert(clean_pieces(init)) by {
            assert forall|i: int| 0 <= i < init.len() implies clean_piece(#[trigger] init[i]) by {
                assert(init[i] == parts[i]);
            }
        }
        lemma_join_ends(init);
        assert(init[0] == parts[0]);
        assert(clean_piece(parts.last()));
    } else if parts.len() == 1 {
        assert(clean_piece(parts[0]));
    }
}

/// The pieces of a relative name are the components of the path that
/// follow those of the root, and they are clean.
pub proof fn lemma_relative_name_pieces(root: Seq<char>, path: Seq<char>)
    requires
        is_under(root, path),
    ensures
        clean_pieces(components(path).skip(components(root).len() as int)),
        relative_to(root, path) == Some(
            join(components(path).skip(components(root).len() as int)),
        ),
        components(relative_to(root, path)->0) == components(path).skip(
            components(root).len() as int,
        ),
{
    lemma_components_clean(path);
    let rest = components(path).skip(components(root).len() as int);
    assert forall|i: int| 0 <= i < rest.len() implies clean_piece(#[trigger] rest[i]) by {
        assert(rest[i] == components(path)[i + components(root).len()]);
    }
    lemma_components_of_join(rest);
}

/// A relative name neither starts nor ends with a separator.
pub proof fn lemma_relative_name_clean(root: Seq<char>, path: Seq<char>)
    ensures
        relative_to(root, path) matches Some(name) ==> !is_absolute(name) && !(name.len() > 0
            && name.last() == '/'),
{
    if is_under(root, path) {
        lemma_relative_name_pieces(root, path);
        let rest = components(path).skip(components(root).len() as int);
        lemma_join_ends(rest);
        if rest.len() > 0 {
            assert(clean_piece(rest[0]));
            assert(clean_piece(rest.last()));
            assert(rest.last()[rest.last().len() - 1] != '/');
        }
    }
}

/// A relative name survives being placed below a destination: taken
/// relative to the destination again, the placed path has the same name.
pub proof fn lemma_placed_name_is_kept(root: Seq<char>, path: Seq<char>, dest: Seq<char>)
    ensures
        relative_to(root, path) matches Some(name) ==> relative_to(dest, joined(dest, name))
            == Some(name),
{
    if is_under(root, path) {
        lemma_relative_name_pieces(root, path);
        lemma_relative_name_clean(root, path);
        let rest = components(path).skip(components(root).len() as int);
        let name = join(rest);
        let placed = joined(dest, name);
        if dest.len() == 0 {
            assert(placed == name);
            assert(components(dest) == Seq::<Seq<char>>::empty());
            assert(rest.take(0) == Seq::<Seq<char>>::empty());
            assert(rest.skip(0) == rest);
        } else {
            if dest.last() == '/' {
                let front = dest.drop_last();
                assert(dest == front + seq!['/']);
                assert(placed == front + seq!['/'] + name);
                lemma_components_concat(front, name);
                assert(components(dest) == components(front));
            } else {
                lemma_components_concat(dest, name);
            }
            assert(placed[0] == dest[0]);
            let all = components(dest) + rest;
            assert(all.take(components(dest).len() as int) == components(dest));
            assert(all.skip(components(dest).len() as int) == rest);
        }
    }
}

/// A separator put behind a path changes neither what it is under nor its
/// relative name.
pub proof fn lemma_trailing_separator(root: Seq<char>, path: Seq<char>)
    requires
        path.len() > 0,
    ensures
        relative_to(root, path.push('/')) == relative_to(root, path),
{
    assert(path.push('/').drop_last() == path);
    assert(path.push('/')[0] == path[0]);
}

/// A relative name survives being placed below a destination as a
/// directory, with a separator behind it.
pub proof fn lemma_placed_directory_name_is_kept(root: Seq<char>, path: Seq<char>, dest: Seq<char>)
    ensures
        relative_to(root, path) matches Some(name) ==> name.len() > 0 ==> relative_to(
            dest,
            joined(dest, name.push('/')),
        ) == Some(name),
{
    if is_under(root, path) {
        lemma_relative_name_clean(root, path);
        lemma_placed_name_is_kept(root, path, dest);
        let name = relative_to(root, path)->0;
        if name.len() > 0 {
            assert(name.push('/')[0] == name[0]);
            assert(joined(dest, name.push('/')) == joined(dest, name).push('/'));
            lemma_trailing_separator(dest, joined(dest, name));
        }
    }
}

/// A safe name stays safe when a separator is put behind it.
pub proof fn lemma_safe_with_separator(name: Seq<char>)
    requires
        is_safe_name(name),
        name.len() > 0,
    ensures
        is_safe_name(name.push('/')),
{
    assert(name.push('/').drop_last() == name);
    assert(name.push('/')[0] == name[0]);
}

/// A walk over pieces none of which is `..` never climbs.
pub proof fn lemma_descending_stays_inside(parts: Seq<Seq<char>>)
    requires
        forall|i: int| 0 <= i < parts.len() ==> #[trigger] parts[i] != seq!['.', '.'],
    ensures
        depth_after(parts) >= 0,
        stays_inside(parts),
    decreases parts.len(),
{
    if parts.len() > 0 {
        let init = parts.drop_last();
        assert forall|i: int| 0 <= i < init.len() implies #[trigger] init[i] != seq!['.', '.'] by {
            assert(init[i] == parts[i]);
        }
        lemma_descending_stays_inside(init);
        assert(level_change(parts.last()) >= 0);
        assert forall|k: int| 0 <= k <= parts.len() implies depth_after(#[trigger] parts.take(k))
            >= 0 by {
            if k == parts.len() {
                assert(parts.take(k) == parts);
            } else {
                assert(parts.take(k) == init.take(k));
            }
        }
    } else {
        assert forall|k: int| 0 <= k <= parts.len() implies depth_after(#[trigger] parts.take(k))
            >= 0 by {
            assert(parts.take(k) == parts);
        }
    }
}

/// The relative name of a path is safe where the path holds no NUL and none
/// of its components is `..`.
pub proof fn lemma_plain_relative_name_is_safe(root: Seq<char>, path: Seq<char>)
    requires
        forall|i: int| 0 <= i < path.len() ==> path[i] != '\0',
        forall|i: int|
            0 <= i < components(path).len() ==> #[trigger] components(path)[i] != seq!['.', '.'],
    ensures
        relative_to(root, path) matches Some(name) ==> is_safe_name(name),
{
    if is_under(root, path) {
        lemma_relative_name_pieces(root, path);
        lemma_relative_name_clean(root, path);
        let skipped = components(root).len() as int;
        let rest = components(path).skip(skipped);
        let name = join(rest);
        assert forall|i: int| 0 <= i < rest.len() implies #[trigger] rest[i] != seq!['.', '.'] by {
            assert(rest[i] == components(path)[i + skipped]);
        }
        lemma_descending_stays_inside(rest);
        lemma_join_has_chars_of_pieces(rest);
        assert forall|i: int| 0 <= i < name.len() implies name[i] != '\0' by {
            if name[i] != '/' {
                let (p, j) = choose|p: int, j: int|
                    0 <= p < rest.len() && 0 <= j < rest[p].len() && #[trigger] rest[p][j]
                        == name[i];
                assert(rest[p] == components(path)[p + skipped]);
                lemma_component_chars_are_in_path(path, p + skipped, j);
            }
        }
    }
}

/// Every character of joined pieces is a separator or a character of a piece.
pub proof fn lemma_join_has_chars_of_pieces(parts: Seq<Seq<char>>)
    ensures
        forall|i: int|
            0 <= i < join(parts).len() ==> #[trigger] join(parts)[i] == '/' || exists|
                p: int,
                j: int,
            |
                0 <= p < parts.len() && 0 <= j < parts[p].len() && #[trigger] parts[p][j] == join(
                    parts,
                )[i],
    decreases parts.len(),
{
    let whole = join(parts);
    if parts.len() == 1 {
        assert forall|i: int| 0 <= i < whole.len() implies #[trigger] whole[i] == '/' || exists|
            p: int,
            j: int,
        |
            0 <= p < parts.len() && 0 <= j < parts[p].len() && #[trigger] parts[p][j] == whole[i] by {
            assert(parts[0][i] == whole[i]);
        }
    } else if parts.len() > 1 {
        let init = parts.drop_last();
        let front = join(init);
        lemma_join_has_chars_of_pieces(init);
        assert forall|i: int| 0 <= i < whole.len() implies #[trigger] whole[i] == '/' || exists|
            p: int,
            j: int,
        |
            0 <= p < parts.len() && 0 <= j < parts[p].len() && #[trigger] parts[p][j] == whole[i] by {
            if i < front.len() {
                assert(whole[i] == front[i]);
                if front[i] != '/' {
                    let (p, j) = choose|p: int, j: int|
                        0 <= p < init.len() && 0 <= j < init[p].len() && #[trigger] init[p][j]
                            == front[i];
                    assert(parts[p][j] == whole[i]);
                }
            } else if i > front.len() {
                let j = i - front.len() - 1;
                assert(parts[parts.len() - 1][j] == whole[i]);
            }
        }
    }
}

/// Every character of a component is a character of the path.
pub proof fn lemma_component_chars_are_in_path(s: Seq<char>, p: int, j: int)
    requires
        0 <= p < components(s).len(),
        0 <= j < components(s)[p].len(),
    ensures
        exists|i: int| 0 <= i < s.len() && s[i] == components(s)[p][j],
    decreases s.len(),
{
    let init = components(s.drop_last());
    let c = s.last();
    if c == '/' {
        lemma_component_chars_are_in_path(s.drop_last(), p, j);
        let i = choose|i: int| 0 <= i < s.drop_last().len() && s.drop_last()[i] == init[p][j];
        assert(s[i] == components(s)[p][j]);
    } else if s.len() >= 2 && s[s.len() - 2] != '/' {
        lemma_components_clean(s.drop_last());
        assert(s.drop_last().last() == s[s.len() - 2]);
        if p == init.len() - 1 && j == init[p].len() {
            assert(s[s.len() - 1] == components(s)[p][j]);
        } else {
            lemma_component_chars_are_in_path(s.drop_last(), p, j);
            let i = choose|i: int| 0 <= i < s.drop_last().len() && s.drop_last()[i] == init[p][j];
            assert(s[i] == components(s)[p][j]);
        }
    } else {
        if p == init.len() {
            assert(s[s.len() - 1] == components(s)[p][j]);
        } else {
            lemma_component_chars_are_in_path(s.drop_last(), p, j);
            let i = choose|i: int| 0 <= i < s.drop_last().len() && s.drop_last()[i] == init[p][j];
            assert(s[i] == components(s)[p][j]);
        }
    }
}

} // verus!
