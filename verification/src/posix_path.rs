//! Paths as strings, with the meaning that `std::path` gives them on Unix:
//! `/` separates components, a leading `/` makes a path absolute.
use vstd::prelude::*;
use crate::text::{chars_of, opt_view, push_char, string_from_chars};

verus! {

/// Which characters split a string into parts.
#[derive(Clone, Copy, Debug, PartialEq, Eq)]
pub enum Separator {
    /// `/`, between path components.
    Slash,
    /// `_` or `-`, between the parts of a sprite file name.
    NamePart,
}

pub open spec fn is_separator(kind: Separator, c: char) -> bool {
    match kind {
        Separator::Slash => c == '/',
        Separator::NamePart => c == '_' || c == '-',
    }
}

/// `str::split` by a separator: the pieces between separators, empty pieces
/// included, so that a string with `n` separators has `n + 1` pieces.
pub open spec fn split_by(s: Seq<char>, kind: Separator) -> Seq<Seq<char>>
    decreases s.len(),
{
    if s.len() == 0 {
        seq![Seq::<char>::empty()]
    } else {
        let prev = split_by(s.drop_last(), kind);
        if is_separator(kind, s.last()) {
            prev.push(Seq::<char>::empty())
        } else {
            prev.update(prev.len() - 1, prev.last().push(s.last()))
        }
    }
}

/// A split always has at least one piece.
pub proof fn lemma_split_nonempty(s: Seq<char>, kind: Separator)
    ensures
        split_by(s, kind).len() >= 1,
    decreases s.len(),
{
    if s.len() > 0 {
        lemma_split_nonempty(s.drop_last(), kind);
    }
}

/// A piece without separators of the given kind.
pub open spec fn is_plain_part(kind: Separator, p: Seq<char>) -> bool {
    forall|i: int| 0 <= i < p.len() ==> !is_separator(kind, #[trigger] p[i])
}

/// Splitting `a`, a separator, then `b` gives the pieces of `a` followed by
/// the pieces of `b`.
pub proof fn lemma_split_concat(kind: Separator, a: Seq<char>, sep: char, b: Seq<char>)
    requires
        is_separator(kind, sep),
    ensures
        split_by(a + seq![sep] + b, kind) == split_by(a, kind) + split_by(b, kind),
    decreases b.len(),
{
    let c = a + seq![sep] + b;
    if b.len() == 0 {
        assert(c.drop_last() =~= a);
        assert(split_by(a, kind).push(Seq::<char>::empty()) =~= split_by(a, kind) + split_by(b, kind));
    } else {
        let b0 = b.drop_last();
        lemma_split_concat(kind, a, sep, b0);
        assert(c.drop_last() =~= a + seq![sep] + b0);
        assert(c.last() == b.last());
        let pa = split_by(a, kind);
        let pb = split_by(b0, kind);
        lemma_split_nonempty(b0, kind);
        if is_separator(kind, b.last()) {
            assert((pa + pb).push(Seq::<char>::empty()) =~= pa + pb.push(Seq::<char>::empty()));
        } else {
            assert((pa + pb).update((pa + pb).len() - 1, (pa + pb).last().push(b.last()))
                =~= pa + pb.update(pb.len() - 1, pb.last().push(b.last())));
        }
    }
}

/// Appending text without separators extends the last piece.
pub proof fn lemma_split_extend(kind: Separator, s: Seq<char>, t: Seq<char>)
    requires
        is_plain_part(kind, t),
    ensures
        split_by(s + t, kind) == ({
            let prev = split_by(s, kind);
            prev.update(prev.len() - 1, prev.last() + t)
        }),
    decreases t.len(),
{
    lemma_split_nonempty(s, kind);
    if t.len() == 0 {
        assert(s + t =~= s);
        let prev = split_by(s, kind);
        assert(prev.last() + t =~= prev.last());
        assert(prev.update(prev.len() - 1, prev.last()) =~= prev);
    } else {
        let t0 = t.drop_last();
        assert forall|i: int| 0 <= i < t0.len() implies !is_separator(kind, #[trigger] t0[i]) by {
            assert(t0[i] == t[i]);
        }
        lemma_split_extend(kind, s, t0);
        assert((s + t).drop_last() =~= s + t0);
        assert((s + t).last() == t.last());
        assert(!is_separator(kind, t[t.len() - 1]));
        let prev = split_by(s, kind);
        lemma_split_nonempty(s + t0, kind);
        assert((prev.last() + t0).push(t.last()) =~= prev.last() + t);
        assert(prev.update(prev.len() - 1, prev.last() + t0).update(prev.len() - 1, prev.last() + t)
            =~= prev.update(prev.len() - 1, prev.last() + t));
    }
}

/// No piece of a split holds a separator.
pub proof fn lemma_split_pieces_plain(s: Seq<char>, kind: Separator)
    ensures
        forall|k: int| 0 <= k < split_by(s, kind).len() ==> is_plain_part(kind, #[trigger] split_by(s, kind)[k]),
    decreases s.len(),
{
    if s.len() > 0 {
        lemma_split_pieces_plain(s.drop_last(), kind);
        lemma_split_nonempty(s.drop_last(), kind);
        let prev = split_by(s.drop_last(), kind);
        if !is_separator(kind, s.last()) {
            assert forall|k: int| 0 <= k < split_by(s, kind).len() implies is_plain_part(kind, #[trigger] split_by(s, kind)[k]) by {
                if k == prev.len() - 1 {
                    let piece = prev.last().push(s.last());
                    assert forall|i: int| 0 <= i < piece.len() implies !is_separator(kind, #[trigger] piece[i]) by {
                        if i < prev.last().len() {
                            assert(piece[i] == prev.last()[i]);
                            assert(is_plain_part(kind, prev[prev.len() - 1]));
                        }
                    }
                } else {
                    assert(split_by(s, kind)[k] == prev[k]);
                }
            }
        } else {
            assert forall|k: int| 0 <= k < split_by(s, kind).len() implies is_plain_part(kind, #[trigger] split_by(s, kind)[k]) by {
                if k < prev.len() {
                    assert(split_by(s, kind)[k] == prev[k]);
                }
            }
        }
    }
}

/// The character sequences held in a vector of character vectors.
pub open spec fn views(parts: Seq<Vec<char>>) -> Seq<Seq<char>> {
    parts.map_values(|p: Vec<char>| p@)
}

/// Splits `v` at every separator of the given kind.
pub fn split_chars(v: &Vec<char>, kind: Separator) -> (parts: Vec<Vec<char>>)
    ensures
        views(parts@) == split_by(v@, kind),
{
    let mut parts: Vec<Vec<char>> = Vec::new();
    let mut cur: Vec<char> = Vec::new();
    let mut i: usize = 0;
    proof {
        assert(v@.take(0) =~= Seq::<char>::empty());
        assert(views(parts@).push(cur@) =~= split_by(v@.take(0), kind));
    }
    while i < v.len()
        invariant
            i <= v.len(),
            views(parts@).push(cur@) == split_by(v@.take(i as int), kind),
        decreases v.len() - i,
    {
        let c = v[i];
        let ghost before = views(parts@);
        let ghost cur_before = cur@;
        proof {
            assert(v@.take(i + 1).drop_last() =~= v@.take(i as int));
            assert(v@.take(i + 1).last() == c);
            lemma_split_nonempty(v@.take(i as int), kind);
        }
        let sep = match kind {
            Separator::Slash => c == '/',
            Separator::NamePart => c == '_' || c == '-',
        };
        if sep {
            let done = cur;
            parts.push(done);
            cur = Vec::new();
            proof {
                assert(views(parts@) =~= before.push(cur_before));
                assert(views(parts@).push(cur@) =~= split_by(v@.take(i + 1), kind));
            }
        } else {
            cur.push(c);
            proof {
                let prev = split_by(v@.take(i as int), kind);
                assert(prev =~= before.push(cur_before));
                assert(views(parts@).push(cur@) =~= prev.update(prev.len() - 1, prev.last().push(c)));
            }
        }
        i = i + 1;
    }
    proof {
        assert(v@.take(v.len() as int) =~= v@);
    }
    let ghost before = views(parts@);
    let last = cur;
    parts.push(last);
    proof {
        assert(views(parts@) =~= before.push(last@));
    }
    parts
}

/// A path is absolute when it starts at the root.
pub open spec fn is_absolute(p: Seq<char>) -> bool {
    p.len() > 0 && p[0] == '/'
}

/// The `..` component.
pub open spec fn parent_dir() -> Seq<char> {
    seq!['.', '.']
}

/// The `.` component.
pub open spec fn cur_dir() -> Seq<char> {
    seq!['.']
}

/// Does the path have a `..` component?
pub open spec fn has_parent_component(p: Seq<char>) -> bool {
    exists|k: int| 0 <= k < split_by(p, Separator::Slash).len()
        && #[trigger] split_by(p, Separator::Slash)[k] == parent_dir()
}

/// A piece of a path that names something: neither empty nor `.`.
pub open spec fn is_named(piece: Seq<char>) -> bool {
    piece.len() > 0 && piece != cur_dir()
}

/// The last piece that names something, if any.
pub open spec fn last_named(pieces: Seq<Seq<char>>) -> Option<Seq<char>>
    decreases pieces.len(),
{
    if pieces.len() == 0 {
        None
    } else if is_named(pieces.last()) {
        Some(pieces.last())
    } else {
        last_named(pieces.drop_last())
    }
}

/// `Path::file_name`: the last component, unless it is `..` or there is none.
pub open spec fn file_name_of(p: Seq<char>) -> Option<Seq<char>> {
    match last_named(split_by(p, Separator::Slash)) {
        Some(name) => if name == parent_dir() { None } else { Some(name) },
        None => None,
    }
}

/// The position of the last `.` in a name, if there is one.
pub open spec fn last_dot(name: Seq<char>) -> Option<int>
    decreases name.len(),
{
    if name.len() == 0 {
        None
    } else if name.last() == '.' {
        Some(name.len() - 1)
    } else {
        last_dot(name.drop_last())
    }
}

/// `Path::file_stem` of a file name: the name before its last `.`, or the
/// whole name when it has no `.` or only a leading one.
pub open spec fn stem_of_name(name: Seq<char>) -> Seq<char> {
    match last_dot(name) {
        Some(d) => if d == 0 { name } else { name.take(d) },
        None => name,
    }
}

/// `Path::extension` of a file name: what follows its last `.`, when that
/// `.` is not the first character.
pub open spec fn extension_of_name(name: Seq<char>) -> Option<Seq<char>> {
    match last_dot(name) {
        Some(d) => if d == 0 { None } else { Some(name.skip(d + 1)) },
        None => None,
    }
}

/// `Path::join`: an absolute second path replaces the first; otherwise the
/// two are joined with one `/`, unless the first is empty or already ends
/// with `/`.
pub open spec fn join_path(base: Seq<char>, more: Seq<char>) -> Seq<char> {
    if is_absolute(more) {
        more
    } else if base.len() == 0 || base.last() == '/' {
        base + more
    } else {
        base + seq!['/'] + more
    }
}

fn is_dot_dot(piece: &Vec<char>) -> (r: bool)
    ensures
        r == (piece@ == parent_dir()),
{
    let r = piece.len() == 2 && piece[0] == '.' && piece[1] == '.';
    proof {
        if piece.len() == 2 && piece[0] == '.' && piece[1] == '.' {
            assert(piece@ =~= parent_dir());
        }
    }
    r
}

fn is_named_piece(piece: &Vec<char>) -> (r: bool)
    ensures
        r == is_named(piece@),
{
    let r = piece.len() > 0 && !(piece.len() == 1 && piece[0] == '.');
    proof {
        if piece.len() == 1 && piece[0] == '.' {
            assert(piece@ =~= cur_dir());
        }
    }
    r
}

/// The file name of a path (`Path::file_name`).
pub fn file_name(path: &str) -> (r: Option<String>)
    ensures
        match r {
            Some(n) => file_name_of(path@) == Some(n@),
            None => file_name_of(path@) is None,
        },
{
    let v = chars_of(path);
    let pieces = split_chars(&v, Separator::Slash);
    let ghost all = views(pieces@);
    proof {
        assert(all.take(pieces.len() as int) =~= all);
    }
    let mut k: usize = pieces.len();
    while k > 0
        invariant
            k <= pieces.len(),
            all == views(pieces@),
            all == split_by(path@, Separator::Slash),
            last_named(all) == last_named(all.take(k as int)),
        decreases k,
    {
        let piece = &pieces[k - 1];
        proof {
            assert(all.take(k as int).last() == piece@);
            assert(all.take(k as int).drop_last() =~= all.take(k - 1));
        }
        if is_named_piece(piece) {
            if is_dot_dot(piece) {
                return None;
            }
            return Some(string_from_chars(piece));
        }
        k = k - 1;
    }
    None
}

/// Splits a file name at its last dot: (stem, extension) as `Path` does.
pub fn split_file_name(name: &str) -> (r: (String, Option<String>))
    ensures
        r.0@ == stem_of_name(name@),
        match r.1 {
            Some(e) => extension_of_name(name@) == Some(e@),
            None => extension_of_name(name@) is None,
        },
{
    let v = chars_of(name);
    proof {
        assert(v@.take(v.len() as int) =~= v@);
    }
    let mut k: usize = v.len();
    while k > 0
        invariant
            k <= v.len(),
            v@ == name@,
            last_dot(v@) == last_dot(v@.take(k as int)),
        decreases k,
    {
        proof {
            assert(v@.take(k as int).last() == v@[k - 1]);
            assert(v@.take(k as int).drop_last() =~= v@.take(k - 1));
        }
        if v[k - 1] == '.' {
            let d = k - 1;
            if d == 0 {
                return (name.to_owned(), None);
            }
            let mut stem: Vec<char> = Vec::new();
            let mut ext: Vec<char> = Vec::new();
            let mut i: usize = 0;
            while i < v.len()
                invariant
                    v@ == name@,
                    d < v.len(),
                    i <= v.len(),
                    i <= d ==> stem@ == v@.take(i as int) && ext@.len() == 0,
                    i > d ==> stem@ == v@.take(d as int) && ext@ == v@.subrange(d + 1, i as int),
                decreases v.len() - i,
            {
                if i < d {
                    stem.push(v[i]);
                    proof {
                        assert(v@.take(i + 1) =~= v@.take(i as int).push(v@[i as int]));
                    }
                } else if i > d {
                    ext.push(v[i]);
                    proof {
                        assert(v@.subrange(d + 1, i + 1) =~= v@.subrange(d + 1, i as int).push(v@[i as int]));
                    }
                } else {
                    proof {
                        assert(v@.subrange(d + 1, d + 1) =~= Seq::<char>::empty());
                    }
                }
                i = i + 1;
            }
            proof {
                assert(v@.subrange(d + 1, v.len() as int) =~= v@.skip(d + 1));
            }
            return (string_from_chars(&stem), Some(string_from_chars(&ext)));
        }
        k = k - 1;
    }
    proof {
        assert(v@.take(0) =~= Seq::<char>::empty());
    }
    (name.to_owned(), None)
}

/// Joins two paths (`Path::join`).
pub fn join(base: &str, more: &str) -> (r: String)
    ensures
        r@ == join_path(base@, more@),
{
    let vb = chars_of(base);
    let vm = chars_of(more);
    if vm.len() > 0 && vm[0] == '/' {
        return more.to_owned();
    }
    let mut r = base.to_owned();
    if vb.len() > 0 && vb[vb.len() - 1] != '/' {
        push_char(&mut r, '/');
    }
    r.append(more);
    r
}

/// Where a file keeps its name in another directory:
/// `dir.join(path.file_name())`, nothing when the path has no file name.
pub open spec fn moved_into(dir: Seq<char>, path: Seq<char>) -> Option<Seq<char>> {
    match file_name_of(path) {
        Some(f) => Some(join_path(dir, f)),
        None => None,
    }
}

/// The path that the file at `path` gets in `dir`, under the same name.
pub fn path_in_dir(dir: &str, path: &str) -> (r: Option<String>)
    ensures
        opt_view(r) == moved_into(dir@, path@),
{
    match file_name(path) {
        Some(f) => Some(join(dir, f.as_str())),
        None => None,
    }
}

/// What `last_named` picks is a named piece of the sequence.
proof fn lemma_last_named_member(pieces: Seq<Seq<char>>)
    ensures
        last_named(pieces) matches Some(x) ==> is_named(x) && exists|k: int| 0 <= k < pieces.len() && pieces[k] == x,
    decreases pieces.len(),
{
    if pieces.len() > 0 {
        if is_named(pieces.last()) {
            assert(pieces[pieces.len() - 1] == pieces.last());
        } else {
            lemma_last_named_member(pieces.drop_last());
            if last_named(pieces.drop_last()) is Some {
                let x = last_named(pieces.drop_last())->0;
                let k = choose|k: int| 0 <= k < pieces.drop_last().len() && pieces.drop_last()[k] == x;
                assert(pieces[k] == x);
            }
        }
    }
}

/// Moving a file into a directory twice puts it where moving it once did:
/// the moved file keeps its name, so saving an image that is already saved
/// gives the same path.
pub proof fn lemma_moved_into_idempotent(dir: Seq<char>, p: Seq<char>)
    ensures
        moved_into(dir, p) matches Some(q) ==> moved_into(dir, q) == Some(q),
{
    if file_name_of(p) is Some {
        let pieces = split_by(p, Separator::Slash);
        lemma_last_named_member(pieces);
        lemma_split_pieces_plain(p, Separator::Slash);
        let f = file_name_of(p)->0;
        assert(last_named(pieces) == Some(f));
        let k = choose|k: int| 0 <= k < pieces.len() && pieces[k] == f;
        assert(is_plain_part(Separator::Slash, pieces[k]));
        assert(is_plain_part(Separator::Slash, f));
        assert(is_named(f));
        assert(!is_absolute(f)) by {
            assert(!is_separator(Separator::Slash, f[0]));
        }
        let q = join_path(dir, f);
        if dir.len() == 0 {
            assert(q == dir + f);
            lemma_split_extend(Separator::Slash, dir, f);
            assert(split_by(dir, Separator::Slash) =~= seq![Seq::<char>::empty()]);
            assert(Seq::<char>::empty() + f =~= f);
        } else if dir.last() == '/' {
            assert(q == dir + f);
            lemma_split_extend(Separator::Slash, dir, f);
            lemma_split_nonempty(dir.drop_last(), Separator::Slash);
            assert(dir.drop_last().push(dir.last()) =~= dir);
            assert(split_by(dir, Separator::Slash).last() == Seq::<char>::empty());
            assert(Seq::<char>::empty() + f =~= f);
        } else {
            let ds = dir + seq!['/'];
            assert(q == ds + f) by {
                assert(dir + seq!['/'] + f =~= ds + f);
            }
            assert(ds.drop_last() =~= dir);
            assert(ds.last() == '/');
            lemma_split_nonempty(dir, Separator::Slash);
            assert(split_by(ds, Separator::Slash).last() == Seq::<char>::empty());
            lemma_split_extend(Separator::Slash, ds, f);
            assert(Seq::<char>::empty() + f =~= f);
        }
        lemma_split_nonempty(q, Separator::Slash);
        assert(split_by(q, Separator::Slash).last() == f);
        assert(last_named(split_by(q, Separator::Slash)) == Some(f));
        assert(file_name_of(q) == Some(f));
    }
}

} // verus!
