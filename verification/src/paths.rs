//! Unix path arithmetic on text: joining, components, parent and file name.

use vstd::prelude::*;
use crate::text::{
    append, join, join_of, same, slice_of, slice_vecs, split, split_of, texts, lemma_texts_push,
};

verus! {

/// A path that starts at the root.
pub open spec fn is_absolute(p: Seq<char>) -> bool {
    p.len() > 0 && p[0] == '/'
}

/// `rest` appended to `base` as `Path::join` does: an absolute `rest`
/// replaces `base`, and one separator is put between them.
pub open spec fn join_path(base: Seq<char>, rest: Seq<char>) -> Seq<char> {
    if is_absolute(rest) {
        rest
    } else if base.len() == 0 {
        rest
    } else if base.last() == '/' {
        base + rest
    } else {
        base + seq!['/'] + rest
    }
}

/// The pieces that name something: neither empty nor `.`.
pub open spec fn named(pieces: Seq<Seq<char>>) -> Seq<Seq<char>>
    decreases pieces.len(),
{
    if pieces.len() == 0 {
        Seq::empty()
    } else {
        let r = named(pieces.drop_last());
        let x = pieces.last();
        if x.len() == 0 || x == seq!['.'] {
            r
        } else {
            r.push(x)
        }
    }
}

/// The components of a path as `Path::components` yields them: `/` for the
/// root, a leading `.` of a relative path, then every named piece.
pub open spec fn components(p: Seq<char>) -> Seq<Seq<char>> {
    let pieces = split(p, '/');
    let root: Seq<Seq<char>> = if is_absolute(p) {
        seq![seq!['/']]
    } else {
        Seq::empty()
    };
    let lead: Seq<Seq<char>> = if !is_absolute(p) && pieces[0] == seq!['.'] {
        seq![seq!['.']]
    } else {
        Seq::empty()
    };
    root + lead + named(pieces)
}

/// Two paths are equal when their components are (as `Path == Path`).
pub open spec fn same_path(a: Seq<char>, b: Seq<char>) -> bool {
    components(a) == components(b)
}

/// `base`'s components are a prefix of `p`'s (as `Path::starts_with`).
pub open spec fn path_starts_with(p: Seq<char>, base: Seq<char>) -> bool {
    let c = components(p);
    let b = components(base);
    b.len() <= c.len() && c.take(b.len() as int) == b
}

/// The text of a list of components.
pub open spec fn render(c: Seq<Seq<char>>) -> Seq<char> {
    if c.len() > 0 && c[0] == seq!['/'] {
        seq!['/'] + join(c.drop_first(), "/"@)
    } else {
        join(c, "/"@)
    }
}

/// The path without its last component (as `Path::parent`), written with
/// single separators; `None` for the root and the empty path.
pub open spec fn parent(p: Seq<char>) -> Option<Seq<char>> {
    let c = components(p);
    if c.len() == 0 || c.last() == seq!['/'] {
        None
    } else {
        Some(render(c.drop_last()))
    }
}

/// The last component when it names an entry (as `Path::file_name`).
pub open spec fn file_name(p: Seq<char>) -> Option<Seq<char>> {
    let c = components(p);
    if c.len() == 0 || c.last() == seq!['/'] || c.last() == seq!['.'] || c.last() == seq!['.', '.'] {
        None
    } else {
        Some(c.last())
    }
}

/// `rest` appended to `base` as `Path::join` does.
pub fn join_path_of(base: &[char], rest: &[char]) -> (r: Vec<char>)
    ensures
        r@ == join_path(base@, rest@),
{
    let mut r: Vec<char> = Vec::new();
    if rest.len() > 0 && rest[0] == '/' {
        append(&mut r, rest);
        assert(r@ =~= rest@);
        return r;
    }
    append(&mut r, base);
    if base.len() > 0 && base[base.len() - 1] != '/' {
        r.push('/');
    }
    append(&mut r, rest);
    proof {
        if base@.len() == 0 {
            assert(r@ =~= rest@);
        } else if base@.last() == '/' {
            assert(r@ =~= base@ + rest@);
        } else {
            assert(r@ =~= base@ + seq!['/'] + rest@);
        }
    }
    r
}

fn is_dot(x: &[char]) -> (r: bool)
    ensures
        r == (x@ == seq!['.']),
{
    let r = x.len() == 1 && x[0] == '.';
    proof {
        if x@.len() == 1 {
            assert(r == (x@ =~= seq!['.']));
        }
    }
    r
}

/// The components of a path.
pub fn components_of(p: &[char]) -> (r: Vec<Vec<char>>)
    ensures
        texts(r@) == components(p@),
{
    let pieces = split_of(p, '/');
    proof {
        crate::text::lemma_split_nonempty(p@, '/');
    }
    let mut r: Vec<Vec<char>> = Vec::new();
    let abs = p.len() > 0 && p[0] == '/';
    if abs {
        let mut root: Vec<char> = Vec::new();
        root.push('/');
        proof {
            lemma_texts_push(r@, root);
        }
        r.push(root);
    } else if is_dot(pieces[0].as_slice()) {
        let mut dot: Vec<char> = Vec::new();
        dot.push('.');
        proof {
            lemma_texts_push(r@, dot);
        }
        r.push(dot);
    }
    let ghost start = texts(r@);
    let ghost pv = texts(pieces@);
    assert(start =~= (if is_absolute(p@) {
        seq![seq!['/']]
    } else {
        Seq::<Seq<char>>::empty()
    }) + (if !is_absolute(p@) && pv[0] == seq!['.'] {
        seq![seq!['.']]
    } else {
        Seq::<Seq<char>>::empty()
    }));
    let mut i: usize = 0;
    assert(pv.take(0) =~= Seq::<Seq<char>>::empty());
    assert(texts(r@) =~= start + named(pv.take(0)));
    while i < pieces.len()
        invariant
            pv == texts(pieces@),
            i <= pieces@.len(),
            texts(r@) == start + named(pv.take(i as int)),
        decreases pieces.len() - i,
    {
        assert(pv.take(i + 1).drop_last() =~= pv.take(i as int));
        assert(pv.take(i + 1).last() == pieces@[i as int]@);
        let x = pieces[i].as_slice();
        if x.len() > 0 && !is_dot(x) {
            let c = slice_of(x, 0, x.len());
            assert(c@ =~= x@);
            proof {
                lemma_texts_push(r@, c);
            }
            r.push(c);
            assert(texts(r@) =~= start + named(pv.take(i + 1)));
        }
        i = i + 1;
    }
    assert(pv.take(pieces@.len() as int) =~= pv);
    r
}

fn same_parts(a: &Vec<Vec<char>>, b: &Vec<Vec<char>>, n: usize) -> (r: bool)
    requires
        n <= a@.len(),
        n <= b@.len(),
    ensures
        r == (texts(a@).take(n as int) == texts(b@).take(n as int)),
{
    let mut i: usize = 0;
    while i < n
        invariant
            n <= a@.len(),
            n <= b@.len(),
            i <= n,
            forall|j: int| 0 <= j < i ==> texts(a@)[j] == texts(b@)[j],
        decreases n - i,
    {
        if !same(a[i].as_slice(), b[i].as_slice()) {
            assert(texts(a@).take(n as int)[i as int] != texts(b@).take(n as int)[i as int]);
            return false;
        }
        i = i + 1;
    }
    assert(texts(a@).take(n as int) =~= texts(b@).take(n as int));
    true
}

/// Whether two paths are equal component by component.
pub fn same_path_of(a: &[char], b: &[char]) -> (r: bool)
    ensures
        r == same_path(a@, b@),
{
    let ca = components_of(a);
    let cb = components_of(b);
    if ca.len() != cb.len() {
        return false;
    }
    let r = same_parts(&ca, &cb, ca.len());
    assert(texts(ca@).take(ca@.len() as int) =~= texts(ca@));
    assert(texts(cb@).take(cb@.len() as int) =~= texts(cb@));
    r
}

/// Whether `p` starts with the components of `base`.
pub fn path_starts_with_of(p: &[char], base: &[char]) -> (r: bool)
    ensures
        r == path_starts_with(p@, base@),
{
    let cp = components_of(p);
    let cb = components_of(base);
    if cb.len() > cp.len() {
        return false;
    }
    let r = same_parts(&cp, &cb, cb.len());
    assert(texts(cb@).take(cb@.len() as int) =~= texts(cb@));
    r
}

fn render_of(c: &Vec<Vec<char>>) -> (r: Vec<char>)
    ensures
        r@ == render(texts(c@)),
{
    let mut sep: Vec<char> = Vec::new();
    sep.push('/');
    if c.len() > 0 && c[0].len() == 1 && c[0][0] == '/' {
        assert(texts(c@)[0] =~= seq!['/']);
        let rest = slice_vecs(c, 1, c.len());
        assert(texts(rest@) =~= texts(c@).drop_first());
        let mut r: Vec<char> = Vec::new();
        r.push('/');
        let j = join_of(rest.as_slice(), "/");
        append(&mut r, j.as_slice());
        assert(r@ =~= seq!['/'] + j@);
        r
    } else {
        proof {
            if texts(c@).len() > 0 && texts(c@)[0] == seq!['/'] {
                assert(c@[0]@.len() == 1 && c@[0]@[0] == '/');
            }
        }
        join_of(c.as_slice(), "/")
    }
}


/// The parent of a path.
pub fn parent_of(p: &[char]) -> (r: Option<Vec<char>>)
    ensures
        match r {
            Some(q) => parent(p@) == Some(q@),
            None => parent(p@) is None,
        },
{
    let c = components_of(p);
    if c.len() == 0 {
        return None;
    }
    let last = c[c.len() - 1].as_slice();
    assert(texts(c@).last() == last@);
    if last.len() == 1 && last[0] == '/' {
        assert(last@ =~= seq!['/']);
        return None;
    }
    proof {
        if last@ == seq!['/'] {
            assert(last@.len() == 1 && last@[0] == '/');
        }
    }
    let init = slice_vecs(&c, 0, c.len() - 1);
    assert(texts(init@) =~= texts(c@).drop_last());
    Some(render_of(&init))
}

/// The file name of a path.
pub fn file_name_of(p: &[char]) -> (r: Option<Vec<char>>)
    ensures
        match r {
            Some(q) => file_name(p@) == Some(q@),
            None => file_name(p@) is None,
        },
{
    let c = components_of(p);
    if c.len() == 0 {
        return None;
    }
    let last = c[c.len() - 1].as_slice();
    assert(texts(c@).last() == last@);
    let special = (last.len() == 1 && (last[0] == '/' || last[0] == '.')) || (last.len() == 2
        && last[0] == '.' && last[1] == '.');
    proof {
        if last@.len() == 1 {
            assert(last@ =~= seq![last@[0]]);
        }
        if last@.len() == 2 {
            assert(last@ =~= seq![last@[0], last@[1]]);
        }
    }
    if special {
        return None;
    }
    Some(slice_of(last, 0, last.len()))
}

} // verus!
