//! Archive-relative names: how an entry's path maps into an archive and how a
//! member's name maps back onto disk.
//!
//! Paths are taken POSIX-style: `/` separates components, empty components
//! (repeated or trailing separators) do not count.

use vstd::prelude::*;
use vstd::string::StringExecFns;
use crate::error::BackupError;

verus! {

/// The non-empty pieces of `s` between separators, in order. The pieces `.`
/// and `..` are pieces like any other here.
///
/// A separator adds nothing; a character that follows a non-separator extends
/// the last piece; any other character starts a new piece.
pub open spec fn components(s: Seq<char>) -> Seq<Seq<char>>
    decreases s.len(),
{
    if s.len() == 0 {
        Seq::empty()
    } else {
        let init = components(s.drop_last());
        if s.last() == '/' {
            init
        } else if s.len() >= 2 && s[s.len() - 2] != '/' {
            init.update(init.len() - 1, init.last().push(s.last()))
        } else {
            init.push(seq![s.last()])
        }
    }
}

/// The pieces put back together with one separator between neighbours.
pub open spec fn join(parts: Seq<Seq<char>>) -> Seq<char>
    decreases parts.len(),
{
    if parts.len() == 0 {
        Seq::empty()
    } else if parts.len() == 1 {
        parts[0]
    } else {
        join(parts.drop_last()) + seq!['/'] + parts.last()
    }
}

/// Whether `s` starts at the filesystem root.
pub open spec fn is_absolute(s: Seq<char>) -> bool {
    s.len() > 0 && s[0] == '/'
}

/// Whether `path` names `root` itself or something below it.
pub open spec fn is_under(root: Seq<char>, path: Seq<char>) -> bool {
    &&& is_absolute(root) == is_absolute(path)
    &&& components(root).len() <= components(path).len()
    &&& components(path).take(components(root).len() as int) == components(root)
}

/// The name of `path` relative to `root`: what is left of its components once
/// those of `root` are taken off the front. `None` when `path` is not under `root`.
pub open spec fn relative_to(root: Seq<char>, path: Seq<char>) -> Option<Seq<char>> {
    if is_under(root, path) {
        Some(join(components(path).skip(components(root).len() as int)))
    } else {
        None
    }
}

/// What a piece does to the depth below the starting directory: `..` climbs
/// one level, `.` stays, any other piece descends one.
pub open spec fn level_change(piece: Seq<char>) -> int {
    if piece == seq!['.', '.'] {
        -1
    } else if piece == seq!['.'] {
        0
    } else {
        1
    }
}

/// The depth below the starting directory after walking all of `parts`.
pub open spec fn depth_after(parts: Seq<Seq<char>>) -> int
    decreases parts.len(),
{
    if parts.len() == 0 {
        0
    } else {
        depth_after(parts.drop_last()) + level_change(parts.last())
    }
}

/// Whether a walk over `parts` never climbs above where it started.
pub open spec fn stays_inside(parts: Seq<Seq<char>>) -> bool {
    forall|k: int| 0 <= k <= parts.len() ==> depth_after(#[trigger] parts.take(k)) >= 0
}

/// Whether a member's name can be unpacked below a destination: it holds no
/// NUL, is not absolute, and never climbs out of the destination.
pub open spec fn is_safe_name(name: Seq<char>) -> bool {
    &&& forall|i: int| 0 <= i < name.len() ==> name[i] != '\0'
    &&& !is_absolute(name)
    &&& stays_inside(components(name))
}

/// `rel` placed below `base`: an absolute `rel` stands alone; otherwise the two
/// are put together with a separator between them unless `base` is empty or
/// already ends in one.
pub open spec fn joined(base: Seq<char>, rel: Seq<char>) -> Seq<char> {
    if is_absolute(rel) {
        rel
    } else if base.len() == 0 || base.last() == '/' {
        base + rel
    } else {
        base + seq!['/'] + rel
    }
}

/// The views of a vector of character vectors.
pub open spec fn parts_view(parts: Seq<Vec<char>>) -> Seq<Seq<char>> {
    Seq::new(parts.len(), |i: int| parts[i]@)
}

/// `String::push` appends the character to the string.
pub assume_specification[ String::push ](s: &mut String, ch: char)
    ensures
        final(s)@ == old(s)@.push(ch),
;

/// The characters of `s`.
pub fn chars_of(s: &str) -> (v: Vec<char>)
    ensures
        v@ == s@,
{
    let mut v: Vec<char> = Vec::new();
    for c in it: s.chars()
        invariant
            v@ == it.seq().take(it.index() as int),
            it.seq() == s@,
    {
        v.push(c);
    }
    v
}

/// The string made of the characters of `v`.
pub fn string_of(v: &Vec<char>) -> (s: String)
    ensures
        s@ == v@,
{
    let mut s = String::new();
    let mut i: usize = 0;
    while i < v.len()
        invariant
            i <= v.len(),
            s@ == v@.take(i as int),
        decreases v.len() - i,
    {
        s.push(v[i]);
        i += 1;
    }
    s
}

/// Splits `s` into its components.
pub fn split(s: &Vec<char>) -> (parts: Vec<Vec<char>>)
    ensures
        parts_view(parts@) == components(s@),
{
    let mut done: Vec<Vec<char>> = Vec::new();
    let mut cur: Vec<char> = Vec::new();
    let mut i: usize = 0;
    while i < s.len()
        invariant
            i <= s.len(),
            cur@.len() > 0 <==> (i > 0 && s@[i - 1] != '/'),
            components(s@.take(i as int)) == if cur@.len() > 0 {
                parts_view(done@).push(cur@)
            } else {
                parts_view(done@)
            },
        decreases s.len() - i,
    {
        let c = s[i];
        proof {
            assert(s@.take(i + 1).drop_last() == s@.take(i as int));
            assert(s@.take(i + 1).last() == c);
            if i > 0 {
                assert(s@.take(i + 1)[i - 1] == s@[i - 1]);
            }
        }
        if c == '/' {
            if cur.len() > 0 {
                let ghost before = parts_view(done@);
                let ghost piece = cur@;
                done.push(cur);
                cur = Vec::new();
                assert(parts_view(done@) == before.push(piece));
            }
        } else {
            let ghost before = cur@;
            cur.push(c);
            proof {
                if before.len() > 0 {
                    let whole = parts_view(done@).push(before);
                    assert(whole.update(whole.len() - 1, whole.last().push(c))
                        == parts_view(done@).push(cur@));
                } else {
                    assert(seq![c] == cur@);
                }
            }
        }
        i += 1;
    }
    proof {
        assert(s@.take(s.len() as int) == s@);
    }
    if cur.len() > 0 {
        let ghost before = parts_view(done@);
        let ghost piece = cur@;
        done.push(cur);
        assert(parts_view(done@) == before.push(piece));
    }
    done
}

/// Whether two character vectors hold the same characters.
pub fn same_chars(a: &Vec<char>, b: &Vec<char>) -> (same: bool)
    ensures
        same == (a@ == b@),
{
    if a.len() != b.len() {
        return false;
    }
    let mut i: usize = 0;
    while i < a.len()
        invariant
            i <= a.len(),
            a.len() == b.len(),
            a@.take(i as int) == b@.take(i as int),
        decreases a.len() - i,
    {
        if a[i] != b[i] {
            return false;
        }
        assert(a@.take(i + 1) == a@.take(i as int).push(a@[i as int]));
        assert(b@.take(i + 1) == b@.take(i as int).push(b@[i as int]));
        i += 1;
    }
    proof {
        assert(a@.take(a.len() as int) == a@);
        assert(b@.take(b.len() as int) == b@);
    }
    true
}

/// Joins the pieces of `parts` from index `from` on with single separators.
fn join_from(parts: &Vec<Vec<char>>, from: usize) -> (name: Vec<char>)
    requires
        from <= parts.len(),
    ensures
        name@ == join(parts_view(parts@).skip(from as int)),
{
    let mut out: Vec<char> = Vec::new();
    let mut k: usize = from;
    let ghost all = parts_view(parts@);
    while k < parts.len()
        invariant
            from <= k <= parts.len(),
            all == parts_view(parts@),
            out@ == join(all.subrange(from as int, k as int)),
        decreases parts.len() - k,
    {
        let ghost sofar = out@;
        if k > from {
            out.push('/');
        }
        let piece = &parts[k];
        let mut j: usize = 0;
        while j < piece.len()
            invariant
                j <= piece.len(),
                out@ == (if k > from { sofar.push('/') } else { sofar }) + piece@.take(j as int),
            decreases piece.len() - j,
        {
            out.push(piece[j]);
            assert(piece@.take(j + 1) == piece@.take(j as int).push(piece@[j as int]));
            j += 1;
        }
        proof {
            assert(piece@.take(piece.len() as int) == piece@);
            let next = all.subrange(from as int, k + 1);
            assert(next.drop_last() == all.subrange(from as int, k as int));
            assert(next.last() == piece@);
            if k > from {
                assert(sofar.push('/') == sofar + seq!['/']);
            } else {
                assert(next.len() == 1);
                assert(sofar + piece@ == piece@);
            }
        }
        k += 1;
    }
    proof {
        assert(all.subrange(from as int, parts.len() as int) == all.skip(from as int));
    }
    out
}

/// The archive-relative name of `entry_path` under `root`.
///
/// The root itself gets the empty name. A path that is not under `root` is
/// refused with `PathError`.
pub fn relative_name(root: &str, entry_path: &str) -> (r: Result<String, BackupError>)
    ensures
        match r {
            Ok(name) => relative_to(root@, entry_path@) == Some(name@),
            Err(e) => e == BackupError::PathError && relative_to(root@, entry_path@) is None,
        },
{
    let r = chars_of(root);
    let p = chars_of(entry_path);
    let r_abs = r.len() > 0 && r[0] == '/';
    let p_abs = p.len() > 0 && p[0] == '/';
    if r_abs != p_abs {
        return Err(BackupError::PathError);
    }
    let rc = split(&r);
    let pc = split(&p);
    if rc.len() > pc.len() {
        return Err(BackupError::PathError);
    }
    let mut k: usize = 0;
    while k < rc.len()
        invariant
            k <= rc.len() <= pc.len(),
            parts_view(rc@) == components(root@),
            parts_view(pc@) == components(entry_path@),
            parts_view(pc@).take(k as int) == parts_view(rc@).take(k as int),
        decreases rc.len() - k,
    {
        if !same_chars(&rc[k], &pc[k]) {
            proof {
                let a = parts_view(pc@).take(rc.len() as int);
                let b = parts_view(rc@);
                assert(a[k as int] == pc@[k as int]@);
                assert(b[k as int] == rc@[k as int]@);
                assert(a != b);
            }
            return Err(BackupError::PathError);
        }
        proof {
            let a = parts_view(pc@);
            let b = parts_view(rc@);
            assert(a.take(k + 1) == a.take(k as int).push(a[k as int]));
            assert(b.take(k + 1) == b.take(k as int).push(b[k as int]));
        }
        k += 1;
    }
    proof {
        assert(parts_view(rc@).take(rc.len() as int) == parts_view(rc@));
    }
    let name = join_from(&pc, rc.len());
    Ok(string_of(&name))
}

/// Whether `name` is safe to unpack below a destination.
pub fn is_safe(name: &str) -> (safe: bool)
    ensures
        safe == is_safe_name(name@),
{
    let chars = chars_of(name);
    let mut i: usize = 0;
    while i < chars.len()
        invariant
            i <= chars.len(),
            chars@ == name@,
            forall|j: int| 0 <= j < i ==> chars@[j] != '\0',
        decreases chars.len() - i,
    {
        if chars[i] == '\0' {
            return false;
        }
        i += 1;
    }
    if chars.len() > 0 && chars[0] == '/' {
        return false;
    }
    let parts = split(&chars);
    let ghost pv = parts_view(parts@);
    let mut depth: usize = 0;
    let mut k: usize = 0;
    while k < parts.len()
        invariant
            k <= parts.len(),
            pv == parts_view(parts@),
            pv == components(name@),
            depth == depth_after(pv.take(k as int)),
            depth <= k,
            forall|j: int| 0 <= j <= k ==> depth_after(#[trigger] pv.take(j)) >= 0,
        decreases parts.len() - k,
    {
        let piece = &parts[k];
        proof {
            assert(pv.take(k + 1).drop_last() == pv.take(k as int));
            assert(pv.take(k + 1).last() == piece@);
        }
        if piece.len() == 2 && piece[0] == '.' && piece[1] == '.' {
            assert(piece@ == seq!['.', '.']);
            if depth == 0 {
                assert(depth_after(pv.take(k + 1)) < 0);
                return false;
            }
            depth -= 1;
        } else if piece.len() == 1 && piece[0] == '.' {
            assert(piece@ == seq!['.']);
        } else {
            proof {
                if piece@ == seq!['.', '.'] {
                    assert(piece@.len() == 2 && piece@[0] == '.' && piece@[1] == '.');
                }
                if piece@ == seq!['.'] {
                    assert(piece@.len() == 1 && piece@[0] == '.');
                }
            }
            depth += 1;
        }
        k += 1;
    }
    true
}

/// Places `rel` below `base`.
pub fn join_path(base: &str, rel: &str) -> (path: String)
    ensures
        path@ == joined(base@, rel@),
{
    let rel_chars = chars_of(rel);
    if rel_chars.len() > 0 && rel_chars[0] == '/' {
        return rel.to_owned();
    }
    let base_chars = chars_of(base);
    let mut path = base.to_owned();
    if base_chars.len() > 0 && base_chars[base_chars.len() - 1] != '/' {
        path.push('/');
        assert(base@.push('/') == base@ + seq!['/']);
    }
    path.append(rel);
    path
}

} // verus!
