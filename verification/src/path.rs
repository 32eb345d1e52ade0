//! Unix paths as text.
use crate::text::{
    lemma_pieces_joined, lemma_texts_push, pieces, split_on, str_eq, texts, to_chars,
};
use vstd::prelude::*;

verus! {

/// Whether a path is absolute.
pub open spec fn is_absolute(p: Seq<char>) -> bool {
    p.len() > 0 && p[0] == '/'
}

/// The path that `p` denotes when it is taken relative to `base`: `p` itself where it is
/// absolute, else `base` and `p` with one separator between them where `base` does not end in
/// one.
pub open spec fn joined(base: Seq<char>, p: Seq<char>) -> Seq<char> {
    if is_absolute(p) {
        p
    } else if base.len() == 0 || base.last() == '/' {
        base + p
    } else {
        base.push('/') + p
    }
}

/// Whether a path is absolute.
pub fn path_is_absolute(p: &str) -> (r: bool)
    ensures
        r == is_absolute(p@),
{
    let chars: Vec<char> = to_chars(p);
    chars.len() > 0 && chars[0] == '/'
}

/// Joins a path to a base directory.
pub fn join(base: &str, p: &str) -> (r: String)
    ensures
        r@ == joined(base@, p@),
{
    if path_is_absolute(p) {
        return p.to_owned();
    }
    let chars: Vec<char> = to_chars(base);
    let mut s: String = base.to_owned();
    if chars.len() > 0 && chars[chars.len() - 1] != '/' {
        s.push('/');
    }
    s.append(p);
    s
}

/// Whether a piece of a path between separators is a component of it: empty pieces are not, nor
/// is a dot behind the first piece.
pub open spec fn counts(pieces: Seq<Seq<char>>, i: int) -> bool {
    pieces[i].len() > 0 && (pieces[i] != "."@ || i == 0)
}

/// The pieces before position `n` that are components.
pub open spec fn components_before(pieces: Seq<Seq<char>>, n: int) -> Seq<Seq<char>>
    decreases n,
{
    if n <= 0 {
        Seq::empty()
    } else if counts(pieces, n - 1) {
        components_before(pieces, n - 1).push(pieces[n - 1])
    } else {
        components_before(pieces, n - 1)
    }
}

/// The components of a path; an absolute path has a separator as its first component.
pub open spec fn components(p: Seq<char>) -> Seq<Seq<char>> {
    let all = pieces(p, '/');
    (if is_absolute(p) {
        seq!["/"@]
    } else {
        Seq::empty()
    }) + components_before(all, all.len() as int)
}

/// Whether a path starts with the components of another.
pub open spec fn is_within(p: Seq<char>, base: Seq<char>) -> bool {
    components(base).len() <= components(p).len() && components(p).take(
        components(base).len() as int,
    ) == components(base)
}

/// The components of a path.
pub fn path_components(p: &str) -> (r: Vec<String>)
    ensures
        texts(r@) == components(p@),
{
    let all: Vec<String> = split_on(p, '/');
    let ghost view = texts(all@);
    let mut out: Vec<String> = Vec::new();
    assert(texts(out@) =~= Seq::<Seq<char>>::empty());
    if path_is_absolute(p) {
        let root: String = "/".to_owned();
        proof {
            lemma_texts_push(out@, root);
        }
        out.push(root);
    }
    let ghost head = texts(out@);
    assert(head =~= if is_absolute(p@) {
        seq!["/"@]
    } else {
        Seq::empty()
    });
    let mut i: usize = 0;
    assert(texts(out@) =~= head + components_before(view, 0));
    while i < all.len()
        invariant
            i <= all@.len(),
            view == texts(all@),
            texts(out@) == head + components_before(view, i as int),
        decreases all@.len() - i,
    {
        assert(view[i as int] == all@[i as int]@);
        if !all[i].as_str().is_empty() && (!str_eq(all[i].as_str(), ".") || i == 0) {
            let piece: String = all[i].clone();
            proof {
                lemma_texts_push(out@, piece);
            }
            out.push(piece);
            assert(texts(out@) =~= head + components_before(view, i + 1));
        }
        i = i + 1;
    }
    out
}

/// Whether a path starts with the components of another.
pub fn starts_with(p: &str, base: &str) -> (r: bool)
    ensures
        r == is_within(p@, base@),
{
    let whole: Vec<String> = path_components(p);
    let start: Vec<String> = path_components(base);
    let ghost w = texts(whole@);
    let ghost s = texts(start@);
    assert(w.len() == whole@.len() && s.len() == start@.len());
    if start.len() > whole.len() {
        return false;
    }
    let mut i: usize = 0;
    while i < start.len()
        invariant
            i <= start@.len() <= whole@.len(),
            w == texts(whole@),
            s == texts(start@),
            w == components(p@),
            s == components(base@),
            forall|k: int| 0 <= k < i ==> w[k] == s[k],
        decreases start@.len() - i,
    {
        assert(w[i as int] == whole@[i as int]@ && s[i as int] == start@[i as int]@);
        if !str_eq(whole[i].as_str(), start[i].as_str()) {
            assert(w.take(s.len() as int)[i as int] != s[i as int]);
            return false;
        }
        i = i + 1;
    }
    assert(w.take(s.len() as int) =~= s);
    true
}

/// Where a sequence of steps leads from a directory: a name goes into a directory, two dots leave
/// it, and a dot or nothing stays.
pub open spec fn walk(from: Seq<Seq<char>>, steps: Seq<Seq<char>>) -> Seq<Seq<char>>
    decreases steps.len(),
{
    if steps.len() == 0 {
        from
    } else {
        let before = walk(from, steps.drop_last());
        let step = steps.last();
        if step.len() == 0 || step == "."@ {
            before
        } else if step == ".."@ {
            if before.len() > 0 {
                before.drop_last()
            } else {
                before
            }
        } else {
            before.push(step)
        }
    }
}

/// The directory or file that a path leads to, as the names on the way to it.
pub open spec fn place(p: Seq<char>) -> Seq<Seq<char>> {
    walk(Seq::empty(), pieces(p, '/'))
}

/// Whether a path never leaves a directory by two dots.
pub open spec fn never_ascends(p: Seq<char>) -> bool {
    forall|i: int| 0 <= i < pieces(p, '/').len() ==> (#[trigger] pieces(p, '/')[i]) != ".."@
}

proof fn lemma_walk_further(from: Seq<Seq<char>>, a: Seq<Seq<char>>, b: Seq<Seq<char>>)
    ensures
        walk(from, a + b) == walk(walk(from, a), b),
    decreases b.len(),
{
    if b.len() == 0 {
        assert(a + b =~= a);
    } else {
        assert((a + b).drop_last() =~= a + b.drop_last());
        lemma_walk_further(from, a, b.drop_last());
    }
}

proof fn lemma_walk_down(from: Seq<Seq<char>>, steps: Seq<Seq<char>>)
    requires
        forall|i: int| 0 <= i < steps.len() ==> (#[trigger] steps[i]) != ".."@,
    ensures
        from.len() <= walk(from, steps).len(),
        walk(from, steps).take(from.len() as int) == from,
    decreases steps.len(),
{
    if steps.len() == 0 {
        assert(from.take(from.len() as int) =~= from);
    } else {
        assert forall|i: int| 0 <= i < steps.drop_last().len() implies (
        #[trigger] steps.drop_last()[i]) != ".."@ by {
            assert(steps.drop_last()[i] == steps[i]);
        }
        lemma_walk_down(from, steps.drop_last());
        assert(steps[steps.len() - 1] != ".."@);
        let before = walk(from, steps.drop_last());
        assert(before.push(steps.last()).take(from.len() as int) =~= before.take(
            from.len() as int,
        ));
    }
}

/// A relative path that never leaves a directory by two dots leads, from whatever base it is taken
/// relative to, to a place within that base.
pub proof fn descending_path_stays_within(base: Seq<char>, p: Seq<char>)
    requires
        !is_absolute(p),
        never_ascends(p),
    ensures
        place(base).len() <= place(joined(base, p)).len(),
        place(joined(base, p)).take(place(base).len() as int) == place(base),
{
    let b = pieces(base, '/');
    let q = pieces(p, '/');
    if base.len() == 0 {
        assert(joined(base, p) =~= p);
        assert(place(base) =~= Seq::<Seq<char>>::empty()) by {
            assert(b =~= seq![Seq::<char>::empty()]);
            assert(b.drop_last() =~= Seq::<Seq<char>>::empty());
            assert(walk(Seq::empty(), b.drop_last()) =~= Seq::<Seq<char>>::empty());
        }
        lemma_walk_down(Seq::empty(), q);
    } else if base.last() == '/' {
        let a = base.drop_last();
        assert(a.push('/') =~= base);
        assert(joined(base, p) =~= a.push('/') + p);
        lemma_pieces_joined(a, p, '/');
        lemma_pieces_joined(a, Seq::empty(), '/');
        assert(a.push('/') + Seq::<char>::empty() =~= base);
        let empty_pieces = pieces(Seq::<char>::empty(), '/');
        assert(empty_pieces =~= seq![Seq::<char>::empty()]);
        lemma_walk_further(Seq::empty(), pieces(a, '/'), empty_pieces);
        assert(empty_pieces.drop_last() =~= Seq::<Seq<char>>::empty());
        assert(walk(place(a), empty_pieces.drop_last()) == place(a));
        assert(place(base) == place(a));
        lemma_walk_further(Seq::empty(), pieces(a, '/'), q);
        lemma_walk_down(place(a), q);
    } else {
        assert(joined(base, p) == base.push('/') + p);
        lemma_pieces_joined(base, p, '/');
        lemma_walk_further(Seq::empty(), b, q);
        lemma_walk_down(place(base), q);
    }
}

/// A relative path is appended to its base with just one separator between them, or none where the
/// base is empty; an absolute path stands for itself.
pub proof fn paths_are_joined_by_one_separator(base: Seq<char>, p: Seq<char>)
    ensures
        p.len() > 0 && p[0] == '/' ==> joined(base, p) == p,
        !(p.len() > 0 && p[0] == '/') ==> {
            &&& base.len() == 0 ==> joined(base, p) == p
            &&& base.len() > 0 && base.last() == '/' ==> joined(base, p) == base + p
            &&& base.len() > 0 && base.last() != '/' ==> joined(base, p) == base + seq!['/'] + p
        },
{
    if base.len() == 0 {
        assert(base + p =~= p);
    } else {
        assert(base.push('/') + p =~= base + seq!['/'] + p);
    }
}

/// The components of a path are its non-empty pieces between separators, in order, but for dots
/// behind the first piece; an absolute path has a separator before them.
pub proof fn components_are_the_named_pieces(all: Seq<Seq<char>>, n: int, p: Seq<char>)
    requires
        0 <= n < all.len(),
    ensures
        components_before(all, 0) == Seq::<Seq<char>>::empty(),
        all[n].len() > 0 && (all[n] != "."@ || n == 0) ==> components_before(all, n + 1)
            == components_before(all, n).push(all[n]),
        all[n].len() == 0 || all[n] == "."@ && n > 0 ==> components_before(all, n + 1)
            == components_before(all, n),
        ({
            let inner = components_before(pieces(p, '/'), pieces(p, '/').len() as int);
            components(p) == if p.len() > 0 && p[0] == '/' {
                seq!["/"@] + inner
            } else {
                inner
            }
        }),
{
    let inner = components_before(pieces(p, '/'), pieces(p, '/').len() as int);
    assert(Seq::<Seq<char>>::empty() + inner =~= inner);
}

/// A path is within another exactly where its components are those of the other and more.
pub proof fn paths_within_start_alike(p: Seq<char>, base: Seq<char>)
    ensures
        is_within(p, base) <==> components(base).len() <= components(p).len() && forall|i: int|
            0 <= i < components(base).len() ==> components(p)[i] == #[trigger] components(base)[i],
{
    let c = components(p);
    let b = components(base);
    if is_within(p, base) {
        assert forall|i: int| 0 <= i < b.len() implies c[i] == #[trigger] b[i] by {
            assert(c.take(b.len() as int)[i] == b[i]);
        }
    } else if b.len() <= c.len() && forall|i: int| 0 <= i < b.len() ==> c[i] == #[trigger] b[i] {
        assert(c.take(b.len() as int) =~= b);
    }
}

} // verus!
