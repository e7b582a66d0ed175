//! File paths as `std::path::Path` sees them on Unix: a path is its list of
//! components, so `a//b`, `a/./b` and `a/b/` name the same path as `a/b`.
//!
//! A component is written here as text: `"/"` for the root, `"."` for a
//! leading current directory, `".."` for a parent directory, and the name
//! itself for a normal component (which never holds `/`, nor is `.` or
//! `..`), so that two paths are equal exactly when their component lists are.

use vstd::prelude::*;
use crate::text::{
    chars_of, is_sep, lemma_split_concat, lemma_split_len, lemma_split_no_sep, same_chars, split,
    split_chars, string_of, views, Sep,
};

verus! {

pub open spec fn root_part() -> Seq<char> {
    seq!['/']
}

pub open spec fn current_part() -> Seq<char> {
    seq!['.']
}

pub open spec fn parent_part() -> Seq<char> {
    seq!['.', '.']
}

/// The segments between slashes that are components: empty segments
/// (repeated or trailing slashes) and `.` drop out.
pub open spec fn kept_segments(segs: Seq<Seq<char>>) -> Seq<Seq<char>>
    decreases segs.len(),
{
    if segs.len() == 0 {
        seq![]
    } else {
        let r = kept_segments(segs.drop_last());
        let s = segs.last();
        if s.len() == 0 || s == current_part() {
            r
        } else {
            r.push(s)
        }
    }
}

/// The components of a path: a root if it starts with `/`, else a current
/// directory if its first segment is `.`, then the remaining segments that
/// are neither empty nor `.`.
pub open spec fn path_components(p: Seq<char>) -> Seq<Seq<char>> {
    let segs = split(p, Sep::Slash);
    if p.len() > 0 && p[0] == '/' {
        seq![root_part()] + kept_segments(segs.drop_first())
    } else if segs[0] == current_part() {
        seq![current_part()] + kept_segments(segs.drop_first())
    } else {
        kept_segments(segs)
    }
}

/// The last component, if it is a normal one, as `Path::file_name` gives it.
pub open spec fn path_file_name(p: Seq<char>) -> Option<Seq<char>> {
    let c = path_components(p);
    if c.len() > 0 && c.last() != root_part() && c.last() != current_part() && c.last()
        != parent_part() {
        Some(c.last())
    } else {
        None
    }
}

/// The components of the path `p`.
pub fn components(p: &Vec<char>) -> (r: Vec<Vec<char>>)
    ensures
        views(r@) == path_components(p@),
{
    let segs = split_chars(p, Sep::Slash);
    proof {
        crate::text::lemma_split_len(p@, Sep::Slash);
    }
    let dot = chars_of(".");
    assert(dot@ == current_part()) by {
        reveal_strlit(".");
    }
    let mut out: Vec<Vec<char>> = Vec::new();
    let start: usize;
    if p.len() > 0 && p[0] == '/' {
        let r = vec!['/'];
        assert(r@ =~= root_part());
        out.push(r);
        assert(views(out@) =~= seq![root_part()]);
        start = 1;
    } else if same_chars(&segs[0], &dot) {
        let c = vec!['.'];
        assert(c@ =~= current_part());
        out.push(c);
        assert(views(out@) =~= seq![current_part()]);
        start = 1;
    } else {
        start = 0;
    }
    let ghost head = views(out@);
    assert(views(segs@).subrange(start as int, start as int) =~= Seq::<Seq<char>>::empty());
    let mut i = start;
    while i < segs.len()
        invariant
            start <= i <= segs.len(),
            views(segs@) == split(p@, Sep::Slash),
            dot@ == current_part(),
            views(out@) == head + kept_segments(views(segs@).subrange(start as int, i as int)),
        decreases segs.len() - i,
    {
        let ghost sub = views(segs@).subrange(start as int, i + 1);
        assert(sub.drop_last() == views(segs@).subrange(start as int, i as int));
        assert(sub.last() == segs@[i as int]@);
        if segs[i].len() == 0 || same_chars(&segs[i], &dot) {
        } else {
            let piece = crate::text::slice_of(&segs[i], 0, segs[i].len());
            assert(piece@ =~= segs@[i as int]@);
            let ghost before = views(out@);
            out.push(piece);
            assert(views(out@) =~= before.push(piece@));
        }
        assert(views(out@) =~= head + kept_segments(sub));
        i = i + 1;
    }
    proof {
        let segv = views(segs@);
        if start == 1 {
            assert(segv.subrange(1, segv.len() as int) =~= segv.drop_first());
        } else {
            assert(segv.subrange(0, segv.len() as int) =~= segv);
            assert(head =~= Seq::<Seq<char>>::empty());
        }
    }
    out
}

fn same_parts(a: &Vec<Vec<char>>, b: &Vec<Vec<char>>) -> (r: bool)
    ensures
        r == (views(a@) == views(b@)),
{
    if a.len() != b.len() {
        assert(views(a@).len() != views(b@).len());
        return false;
    }
    let mut i: usize = 0;
    while i < a.len()
        invariant
            i <= a.len() == b.len(),
            forall|k: int| 0 <= k < i ==> a@[k]@ == b@[k]@,
        decreases a.len() - i,
    {
        if !same_chars(&a[i], &b[i]) {
            assert(views(a@)[i as int] != views(b@)[i as int]);
            return false;
        }
        i = i + 1;
    }
    assert(views(a@) =~= views(b@));
    true
}

/// Whether `a` and `b` name the same path, as `Path`'s `==` compares them.
pub fn same_path(a: &str, b: &str) -> (r: bool)
    ensures
        r == (path_components(a@) == path_components(b@)),
{
    let ca = components(&chars_of(a));
    let cb = components(&chars_of(b));
    same_parts(&ca, &cb)
}

/// The file name of a path: its last component when that is a normal one.
pub fn file_name(path: &str) -> (r: Option<String>)
    ensures
        match r {
            Some(n) => path_file_name(path@) == Some(n@),
            None => path_file_name(path@) is None,
        },
{
    let c = components(&chars_of(path));
    if c.len() == 0 {
        return None;
    }
    let last = &c[c.len() - 1];
    assert(last@ == path_components(path@).last());
    let root = vec!['/'];
    let cur = vec!['.'];
    let parent = vec!['.', '.'];
    assert(root@ == root_part());
    assert(cur@ == current_part());
    assert(parent@ == parent_part());
    if same_chars(last, &root) || same_chars(last, &cur) || same_chars(last, &parent) {
        None
    } else {
        Some(string_of(last))
    }
}

// ---- laws ----------------------------------------------------------------------

proof fn lemma_kept_concat(xs: Seq<Seq<char>>, ys: Seq<Seq<char>>)
    ensures
        kept_segments(xs + ys) == kept_segments(xs) + kept_segments(ys),
    decreases ys.len(),
{
    if ys.len() == 0 {
        assert(xs + ys =~= xs);
        assert(kept_segments(xs) + kept_segments(ys) =~= kept_segments(xs));
    } else {
        lemma_kept_concat(xs, ys.drop_last());
        assert((xs + ys).drop_last() =~= xs + ys.drop_last());
        assert((xs + ys).last() == ys.last());
        assert(kept_segments(xs + ys) =~= kept_segments(xs) + kept_segments(ys));
    }
}

proof fn lemma_kept_empty_piece()
    ensures
        kept_segments(seq![Seq::<char>::empty()]) == Seq::<Seq<char>>::empty(),
{
    assert(seq![Seq::<char>::empty()].drop_last() =~= Seq::<Seq<char>>::empty());
    assert(seq![Seq::<char>::empty()].last().len() == 0);
    assert(kept_segments(Seq::<Seq<char>>::empty()) =~= Seq::<Seq<char>>::empty());
}

proof fn lemma_path_of_segments(a: Seq<char>, mid: Seq<Seq<char>>, rest: Seq<Seq<char>>, p: Seq<char>)
    requires
        a.len() > 0,
        p.len() > 0,
        p[0] == a[0],
        split(p, Sep::Slash) == split(a, Sep::Slash) + mid + rest,
        kept_segments(mid) == Seq::<Seq<char>>::empty(),
    ensures
        path_components(p) == path_components_of(a, rest),
{
    lemma_split_len(a, Sep::Slash);
    let sa = split(a, Sep::Slash);
    let sp = split(p, Sep::Slash);
    assert(sp[0] == sa[0]);
    assert(sp.drop_first() =~= sa.drop_first() + mid + rest);
    lemma_kept_concat(sa.drop_first() + mid, rest);
    lemma_kept_concat(sa.drop_first(), mid);
    lemma_kept_concat(sa, mid);
    lemma_kept_concat(sa + mid, rest);
    assert(sa + mid + rest == (sa + mid) + rest);
    assert(kept_segments(sa.drop_first() + mid) =~= kept_segments(sa.drop_first()));
    assert(kept_segments(sa + mid) =~= kept_segments(sa));
}

/// The components of `a` followed by the kept segments of `rest`.
pub open spec fn path_components_of(a: Seq<char>, rest: Seq<Seq<char>>) -> Seq<Seq<char>> {
    path_components(a) + kept_segments(rest)
}

/// Paths name the same thing however many slashes separate their parts,
/// and a trailing slash changes nothing (`a//b` is `a/b`, `a/b/` is `a/b`).
pub proof fn lemma_slashes_normalised(a: Seq<char>, b: Seq<char>)
    requires
        a.len() > 0,
    ensures
        path_components(a + seq!['/', '/'] + b) == path_components(a + seq!['/'] + b),
        path_components(a + seq!['/']) == path_components(a),
{
    let e = Seq::<char>::empty();
    // a + "//" + b
    let p2 = a + seq!['/', '/'] + b;
    assert(p2 =~= a + seq!['/'] + (e + seq!['/'] + b));
    lemma_split_concat(e, '/', b, Sep::Slash);
    lemma_split_concat(a, '/', e + seq!['/'] + b, Sep::Slash);
    lemma_split_no_sep(e, Sep::Slash);
    lemma_kept_empty_piece();
    let sp2 = split(p2, Sep::Slash);
    assert(sp2 =~= split(a, Sep::Slash) + seq![e] + split(b, Sep::Slash));
    assert(p2[0] == a[0]);
    lemma_path_of_segments(a, seq![e], split(b, Sep::Slash), p2);
    // a + "/" + b
    let p1 = a + seq!['/'] + b;
    lemma_split_concat(a, '/', b, Sep::Slash);
    assert(split(p1, Sep::Slash) =~= split(a, Sep::Slash) + Seq::<Seq<char>>::empty() + split(
        b,
        Sep::Slash,
    ));
    assert(p1[0] == a[0]);
    assert(kept_segments(Seq::<Seq<char>>::empty()) =~= Seq::<Seq<char>>::empty());
    lemma_path_of_segments(a, Seq::<Seq<char>>::empty(), split(b, Sep::Slash), p1);
    // a + "/"
    let p0 = a + seq!['/'];
    assert(p0 =~= a + seq!['/'] + e);
    lemma_split_concat(a, '/', e, Sep::Slash);
    assert(split(p0, Sep::Slash) =~= split(a, Sep::Slash) + seq![e] + Seq::<Seq<char>>::empty());
    assert(p0[0] == a[0]);
    lemma_path_of_segments(a, seq![e], Seq::<Seq<char>>::empty(), p0);
    assert(path_components(a) + Seq::<Seq<char>>::empty() =~= path_components(a));
}

/// The file name of a path ending in `/name` is `name`, for a normal name.
pub proof fn lemma_file_name_of_child(a: Seq<char>, name: Seq<char>)
    requires
        name.len() > 0,
        forall|i: int| 0 <= i < name.len() ==> name[i] != '/',
        name != current_part(),
        name != parent_part(),
    ensures
        path_file_name(a + seq!['/'] + name) == Some(name),
{
    let p = a + seq!['/'] + name;
    assert forall|i: int| 0 <= i < name.len() implies !is_sep(Sep::Slash, #[trigger] name[i]) by {}
    lemma_split_no_sep(name, Sep::Slash);
    lemma_split_concat(a, '/', name, Sep::Slash);
    lemma_split_len(a, Sep::Slash);
    let sa = split(a, Sep::Slash);
    let sp = split(p, Sep::Slash);
    assert(sp == sa + seq![name]);
    assert(seq![name].drop_last() =~= Seq::<Seq<char>>::empty());
    assert(kept_segments(Seq::<Seq<char>>::empty()) =~= Seq::<Seq<char>>::empty());
    assert(kept_segments(seq![name]) =~= seq![name]);
    assert(sp.drop_first() =~= sa.drop_first() + seq![name]);
    lemma_kept_concat(sa.drop_first(), seq![name]);
    lemma_kept_concat(sa, seq![name]);
    assert(sp[0] == sa[0]);
    let c = path_components(p);
    assert(c.last() == name);
    assert(name != root_part()) by {
        if name == root_part() {
            assert(name[0] == '/');
        }
    }
}

} // verus!
