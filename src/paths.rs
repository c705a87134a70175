//! Paths as text: components, file names, and the category chain a file
//! gets from the directories between it and its library root.
use crate::text::{join_text, views};
use vstd::prelude::*;
use vstd::string::StringExecFns;

verus! {

/// The pieces of `s` between occurrences of `sep`; empty pieces are kept, so
/// there is always one more piece than separators.
pub open spec fn split_on(s: Seq<char>, sep: char) -> Seq<Seq<char>>
    decreases s.len(),
{
    if s.len() == 0 {
        seq![Seq::<char>::empty()]
    } else {
        let prev = split_on(s.drop_last(), sep);
        if s.last() == sep {
            prev.push(Seq::<char>::empty())
        } else {
            prev.update(prev.len() - 1, prev.last().push(s.last()))
        }
    }
}

pub proof fn lemma_split_on_nonempty(s: Seq<char>, sep: char)
    ensures
        split_on(s, sep).len() >= 1,
    decreases s.len(),
{
    if s.len() > 0 {
        lemma_split_on_nonempty(s.drop_last(), sep);
    }
}

/// A piece of a path that names something: neither empty nor `.`, which
/// stands for the directory it is in.
pub open spec fn is_named_piece(c: Seq<char>) -> bool {
    c.len() > 0 && c != seq!['.']
}

/// The named pieces of `s`, in order.
pub open spec fn named_pieces(s: Seq<Seq<char>>) -> Seq<Seq<char>>
    decreases s.len(),
{
    if s.len() == 0 {
        s
    } else if is_named_piece(s.last()) {
        named_pieces(s.drop_last()).push(s.last())
    } else {
        named_pieces(s.drop_last())
    }
}

/// The components of a path: the pieces between `/` separators, leaving out
/// empty ones and `.`.
pub open spec fn components(p: Seq<char>) -> Seq<Seq<char>> {
    named_pieces(split_on(p, '/'))
}

/// A path names a file when its last component is neither `.` nor `..`.
pub open spec fn has_file_name(p: Seq<char>) -> bool {
    let c = components(p);
    c.len() > 0 && c.last() != seq!['.'] && c.last() != seq!['.', '.']
}

/// The position of the last `c` in `s`, or -1.
pub open spec fn last_index_of(s: Seq<char>, c: char) -> int
    decreases s.len(),
{
    if s.len() == 0 {
        -1
    } else if s.last() == c {
        s.len() - 1
    } else {
        last_index_of(s.drop_last(), c)
    }
}

pub proof fn lemma_last_index_of_bounds(s: Seq<char>, c: char)
    ensures
        -1 <= last_index_of(s, c) < s.len(),
        last_index_of(s, c) >= 0 ==> s[last_index_of(s, c)] == c,
    decreases s.len(),
{
    if s.len() > 0 && s.last() != c {
        lemma_last_index_of_bounds(s.drop_last(), c);
    }
}

/// A file name without its extension: the part before the last `.`, unless
/// that dot is the first character or there is none.
pub open spec fn stem_of(name: Seq<char>) -> Seq<char> {
    let i = last_index_of(name, '.');
    if i <= 0 {
        name
    } else {
        name.subrange(0, i)
    }
}

/// The last component of a path with its extension removed.
pub open spec fn file_stem(p: Seq<char>) -> Seq<char> {
    stem_of(components(p).last())
}

/// The path of a file named `name` beside the file at `p`: the text of `p`
/// up to and including its last `/`, then `name`.
pub open spec fn sibling_path(p: Seq<char>, name: Seq<char>) -> Seq<char> {
    let i = last_index_of(p, '/');
    p.subrange(0, i + 1) + name
}

/// The labels collected walking up from the directory `comps[..j]`: stop at
/// the library root or when the directory has no name (nothing is left, or
/// it ends in `..`), else take the directory's name and go on with its
/// parent.
pub open spec fn category_chain(comps: Seq<Seq<char>>, root: Seq<Seq<char>>, j: int) -> Seq<
    Seq<char>,
>
    decreases j,
{
    if j <= 0 || j > comps.len() || comps.subrange(0, j) == root || comps[j - 1] == seq![
        '.',
        '.',
    ] {
        Seq::empty()
    } else {
        seq![comps[j - 1]] + category_chain(comps, root, j - 1)
    }
}

/// The categories of the file at components `comps` in the library whose root
/// has components `root`: the names of its ancestor directories, innermost
/// first, up to and excluding the root.
pub open spec fn categories_of(comps: Seq<Seq<char>>, root: Seq<Seq<char>>) -> Seq<Seq<char>> {
    if comps.len() == 0 {
        Seq::empty()
    } else {
        category_chain(comps, root, comps.len() - 1)
    }
}

/// Splits `s` at every `sep`, keeping empty pieces.
pub fn split_text(s: &str, sep: char) -> (r: Vec<String>)
    ensures
        views(r@) == split_on(s@, sep),
{
    let n = s.unicode_len();
    let mut done: Vec<String> = Vec::new();
    let mut start: usize = 0;
    let mut i: usize = 0;
    proof {
        assert(s@.subrange(0, 0) =~= Seq::<char>::empty());
        assert(views(done@) =~= Seq::<Seq<char>>::empty());
        assert(views(done@).push(Seq::<char>::empty()) =~= seq![Seq::<char>::empty()]);
    }
    while i < n
        invariant
            n == s@.len(),
            start <= i <= n,
            views(done@).push(s@.subrange(start as int, i as int)) == split_on(
                s@.subrange(0, i as int),
                sep,
            ),
        decreases n - i,
    {
        let c = s.get_char(i);
        proof {
            let p = s@.subrange(0, i as int + 1);
            assert(p.drop_last() =~= s@.subrange(0, i as int));
            assert(p.last() == c);
        }
        if c == sep {
            let piece = s.substring_char(start, i).to_owned();
            proof {
                assert(views(done@.push(piece)) =~= views(done@).push(piece@));
                assert(s@.subrange(i as int + 1, i as int + 1) =~= Seq::<char>::empty());
            }
            done.push(piece);
            start = i + 1;
        } else {
            proof {
                assert(s@.subrange(start as int, i as int + 1) =~= s@.subrange(
                    start as int,
                    i as int,
                ).push(c));
                let prev = views(done@).push(s@.subrange(start as int, i as int));
                assert(prev.update(prev.len() - 1, prev.last().push(c)) =~= views(done@).push(
                    s@.subrange(start as int, i as int + 1),
                ));
            }
        }
        i = i + 1;
    }
    let last = s.substring_char(start, n).to_owned();
    proof {
        assert(s@.subrange(0, n as int) =~= s@);
        assert(views(done@.push(last)) =~= views(done@).push(last@));
    }
    done.push(last);
    done
}

/// The components of a path: the non-empty pieces between `/` separators.
pub fn path_components(p: &str) -> (r: Vec<String>)
    ensures
        views(r@) == components(p@),
{
    let pieces = split_text(p, '/');
    let mut r: Vec<String> = Vec::new();
    let mut i: usize = 0;
    proof {
        assert(views(pieces@).subrange(0, 0) =~= Seq::<Seq<char>>::empty());
        assert(views(r@) =~= Seq::<Seq<char>>::empty());
    }
    while i < pieces.len()
        invariant
            i <= pieces@.len(),
            views(pieces@) == split_on(p@, '/'),
            views(r@) == named_pieces(views(pieces@).subrange(0, i as int)),
        decreases pieces@.len() - i,
    {
        proof {
            let vs = views(pieces@);
            assert(vs.subrange(0, i as int + 1) =~= vs.subrange(0, i as int).push(vs[i as int]));
            assert(vs.subrange(0, i as int + 1).drop_last() =~= vs.subrange(0, i as int));
            assert(vs[i as int] == pieces@[i as int]@);
        }
        let len = pieces[i].as_str().unicode_len();
        let dot = String::from_str(".");
        proof {
            reveal_strlit(".");
            assert(dot@ =~= seq!['.']);
        }
        if len > 0 && pieces[i] != dot {
            let piece = pieces[i].clone();
            proof {
                assert(views(r@.push(piece)) =~= views(r@).push(piece@));
            }
            r.push(piece);
        } else {
            assert(!is_named_piece(views(pieces@)[i as int]));
        }
        i = i + 1;
    }
    proof {
        assert(views(pieces@).subrange(0, pieces@.len() as int) =~= views(pieces@));
    }
    r
}

/// Whether the path names a file: it has a last component, and that
/// component is neither `.` nor `..`.
pub fn names_a_file(path: &str) -> (r: bool)
    ensures
        r == has_file_name(path@),
{
    let comps = path_components(path);
    if comps.len() == 0 {
        return false;
    }
    let last = &comps[comps.len() - 1];
    proof {
        assert(views(comps@)[comps@.len() - 1] == comps@[comps@.len() - 1]@);
        reveal_strlit(".");
        reveal_strlit("..");
    }
    let dot = String::from_str(".");
    let dots = String::from_str("..");
    proof {
        assert(dot@ =~= seq!['.']);
        assert(dots@ =~= seq!['.', '.']);
    }
    *last != dot && *last != dots
}

/// The position of the last `c` in `s`, or `None`.
fn find_last(s: &str, c: char) -> (r: Option<usize>)
    ensures
        match r {
            Some(i) => i as int == last_index_of(s@, c) && i < s@.len(),
            None => last_index_of(s@, c) == -1,
        },
{
    let n = s.unicode_len();
    let mut i: usize = n;
    proof {
        assert(s@.subrange(0, n as int) =~= s@);
    }
    while i > 0
        invariant
            i <= n == s@.len(),
            last_index_of(s@, c) == last_index_of(s@.subrange(0, i as int), c),
        decreases i,
    {
        proof {
            let p = s@.subrange(0, i as int);
            assert(p.drop_last() =~= s@.subrange(0, i as int - 1));
        }
        if s.get_char(i - 1) == c {
            proof {
                lemma_last_index_of_bounds(s@, c);
            }
            return Some(i - 1);
        }
        i = i - 1;
    }
    None
}

/// The file name of a path without its extension.
pub fn get_file_name_without_ext(path: &str) -> (r: String)
    requires
        has_file_name(path@),
    ensures
        r@ == file_stem(path@),
{
    let comps = path_components(path);
    let k = comps.len() - 1;
    let name = comps[k].as_str();
    proof {
        assert(views(comps@)[k as int] == comps@[k as int]@);
    }
    match find_last(name, '.') {
        Some(i) => {
            if i == 0 {
                name.to_owned()
            } else {
                proof {
                    lemma_last_index_of_bounds(name@, '.');
                }
                name.substring_char(0, i).to_owned()
            }
        },
        None => name.to_owned(),
    }
}

/// The path of a file named `name` beside the file at `path`.
pub fn sibling_of(path: &str, name: &str) -> (r: String)
    ensures
        r@ == sibling_path(path@, name@),
{
    let n = path.unicode_len();
    proof {
        lemma_last_index_of_bounds(path@, '/');
    }
    let dir = match find_last(path, '/') {
        Some(i) => path.substring_char(0, i + 1),
        None => path.substring_char(0, 0),
    };
    join_text(dir, name)
}

/// Whether the first `j` components of a path are exactly `root`.
fn prefix_is(comps: &Vec<String>, j: usize, root: &Vec<String>) -> (r: bool)
    requires
        j <= comps@.len(),
    ensures
        r == (views(comps@).subrange(0, j as int) == views(root@)),
{
    if j != root.len() {
        proof {
            assert(views(comps@).subrange(0, j as int).len() != views(root@).len());
        }
        return false;
    }
    let mut i: usize = 0;
    while i < j
        invariant
            j == root@.len(),
            j <= comps@.len(),
            i <= j,
            forall|k: int| 0 <= k < i ==> comps@[k]@ == root@[k]@,
        decreases j - i,
    {
        if comps[i] != root[i] {
            proof {
                assert(views(comps@).subrange(0, j as int)[i as int] != views(root@)[i as int]);
            }
            return false;
        }
        i = i + 1;
    }
    proof {
        assert(views(comps@).subrange(0, j as int) =~= views(root@));
    }
    true
}

/// The categories of the file at `path` in the library rooted at `root`: the
/// names of the directories between them, innermost first. Empty when the
/// file sits directly under the root.
pub fn categories_from_directory(path: &str, root: &str) -> (r: Vec<String>)
    ensures
        views(r@) == categories_of(components(path@), components(root@)),
{
    let comps = path_components(path);
    let root_comps = path_components(root);
    let ghost cs = views(comps@);
    let ghost rs = views(root_comps@);
    let mut r: Vec<String> = Vec::new();
    if comps.len() == 0 {
        return r;
    }
    let mut j: usize = comps.len() - 1;
    while j > 0 && !prefix_is(&comps, j, &root_comps) && !is_parent_marker(&comps, j - 1)
        invariant
            cs == views(comps@),
            rs == views(root_comps@),
            comps@.len() > 0,
            j < comps@.len(),
            views(r@) + category_chain(cs, rs, j as int) == category_chain(
                cs,
                rs,
                comps@.len() - 1,
            ),
        decreases j,
    {
        let name = comps[j - 1].clone();
        proof {
            assert(cs[j - 1] == name@);
            assert(views(r@.push(name)) =~= views(r@).push(name@));
            assert(views(r@) + category_chain(cs, rs, j as int) =~= views(r@).push(name@)
                + category_chain(cs, rs, j - 1));
        }
        r.push(name);
        j = j - 1;
    }
    proof {
        assert(category_chain(cs, rs, j as int) =~= Seq::<Seq<char>>::empty());
        assert(views(r@) + Seq::<Seq<char>>::empty() =~= views(r@));
    }
    r
}

/// Whether component `i` is `..`.
fn is_parent_marker(comps: &Vec<String>, i: usize) -> (r: bool)
    requires
        i < comps@.len(),
    ensures
        r == (views(comps@)[i as int] == seq!['.', '.']),
{
    let dots = String::from_str("..");
    proof {
        reveal_strlit("..");
        assert(dots@ =~= seq!['.', '.']);
        assert(views(comps@)[i as int] == comps@[i as int]@);
    }
    comps[i] == dots
}

/// Walking up from any directory at depth `j` above the root `comps[..k]`,
/// through no `..`, collects the names between them, innermost first.
proof fn lemma_chain_below_root(comps: Seq<Seq<char>>, k: int, j: int)
    requires
        0 <= k <= j <= comps.len(),
        forall|i: int| k <= i < j ==> comps[i] != seq!['.', '.'],
    ensures
        category_chain(comps, comps.subrange(0, k), j) == comps.subrange(k, j).reverse(),
    decreases j,
{
    let root = comps.subrange(0, k);
    if j == k {
        assert(comps.subrange(0, j) == root);
        assert(comps.subrange(k, j).reverse() =~= Seq::<Seq<char>>::empty());
    } else {
        assert(comps.subrange(0, j).len() != root.len());
        lemma_chain_below_root(comps, k, j - 1);
        assert(seq![comps[j - 1]] + comps.subrange(k, j - 1).reverse() =~= comps.subrange(
            k,
            j,
        ).reverse());
    }
}

/// For every file under a library root, its innermost-first category chain
/// rebuilds its path relative to the root: the categories reversed, then the
/// file's own name, are the components after the root's. A file is under the
/// root when the root's components start its own and no directory between
/// them is `..`.
pub proof fn lemma_categories_rebuild_relative_path(file: Seq<char>, root: Seq<char>)
    requires
        components(root).len() < components(file).len(),
        components(file).subrange(0, components(root).len() as int) == components(root),
        forall|i: int|
            components(root).len() <= i < components(file).len() - 1 ==> components(file)[i]
                != seq!['.', '.'],
    ensures
        categories_of(components(file), components(root)).reverse() + seq![
            components(file).last(),
        ] == components(file).subrange(
            components(root).len() as int,
            components(file).len() as int,
        ),
{
    let c = components(file);
    let k = components(root).len() as int;
    let n = c.len() as int;
    lemma_chain_below_root(c, k, n - 1);
    assert(c.subrange(k, n - 1).reverse().reverse() =~= c.subrange(k, n - 1));
    assert(c.subrange(k, n - 1) + seq![c.last()] =~= c.subrange(k, n));
}

/// The image files beside the file at `path` that may hold its cover: its
/// name without extension with `.png`, then with `.jpg`.
pub fn cover_candidates(path: &str) -> (r: (String, String))
    requires
        has_file_name(path@),
    ensures
        r.0@ == sibling_path(path@, file_stem(path@) + ".png"@),
        r.1@ == sibling_path(path@, file_stem(path@) + ".jpg"@),
{
    let stem = get_file_name_without_ext(path);
    let png = join_text(stem.as_str(), ".png");
    let jpg = join_text(stem.as_str(), ".jpg");
    (sibling_of(path, png.as_str()), sibling_of(path, jpg.as_str()))
}

/// The cover found beside a file, from its two candidates: the PNG where a
/// PNG entry exists, the JPEG otherwise, and only if that entry is a file.
pub fn get_image_path_media(
    candidates: (String, String),
    png_exists: bool,
    png_is_file: bool,
    jpg_is_file: bool,
) -> (r: Option<String>)
    ensures
        r == (if png_exists {
            if png_is_file {
                Some(candidates.0)
            } else {
                None
            }
        } else if jpg_is_file {
            Some(candidates.1)
        } else {
            None
        }),
{
    let (png, jpg) = candidates;
    if png_exists {
        if png_is_file {
            Some(png)
        } else {
            None
        }
    } else if jpg_is_file {
        Some(jpg)
    } else {
        None
    }
}

} // verus!
