//! Unix paths as strings, compared by their components the way
//! `std::path::Path` compares them.
use vstd::prelude::*;

use crate::text::{
    chars_eq, chars_of, concat, has_prefix, has_suffix, lemma_split_on_concat, lemma_split_on_nonempty,
    lemma_split_on_without_sep, slice_chars, split_on, split_on_exec, string_of, views,
};

verus! {

/// The pieces between slashes that name something: empty pieces and `.` dropped.
pub open spec fn named_pieces(ps: Seq<Seq<char>>) -> Seq<Seq<char>>
    decreases ps.len(),
{
    if ps.len() == 0 {
        Seq::empty()
    } else {
        let init = named_pieces(ps.drop_last());
        let p = ps.last();
        if p.len() == 0 || p == seq!['.'] {
            init
        } else {
            init.push(p)
        }
    }
}

/// The components of a path (`Path::components`): `/` for the root, `.` for a
/// leading current directory, then the named pieces; repeated slashes,
/// inner `.` pieces and a trailing slash do not count.
pub open spec fn components(path: Seq<char>) -> Seq<Seq<char>> {
    let ps = split_on(path, '/');
    let head = if path.len() > 0 && path[0] == '/' {
        seq![seq!['/']]
    } else if ps[0] == seq!['.'] {
        seq![seq!['.']]
    } else {
        Seq::empty()
    };
    head + named_pieces(ps)
}

/// The pieces joined with `/` between them.
pub open spec fn join_pieces(ps: Seq<Seq<char>>) -> Seq<char>
    decreases ps.len(),
{
    if ps.len() == 0 {
        Seq::empty()
    } else if ps.len() == 1 {
        ps[0]
    } else {
        join_pieces(ps.drop_last()) + seq!['/'] + ps.last()
    }
}

/// The path written by a sequence of components.
pub open spec fn path_of_components(cs: Seq<Seq<char>>) -> Seq<char> {
    if cs.len() > 0 && cs[0] == seq!['/'] {
        seq!['/'] + join_pieces(cs.drop_first())
    } else {
        join_pieces(cs)
    }
}

/// `path` starts with the components of `base` (`Path::starts_with`).
pub open spec fn path_starts_with(path: Seq<char>, base: Seq<char>) -> bool {
    let cb = components(base);
    let cp = components(path);
    cb.len() <= cp.len() && cp.take(cb.len() as int) == cb
}

/// A piece between slashes that names nothing: empty or `.`.
pub open spec fn unnamed(p: Seq<char>) -> bool {
    p.len() == 0 || p == seq!['.']
}

/// The pieces after the first `m` named ones.
pub open spec fn skip_named(ps: Seq<Seq<char>>, m: nat) -> Seq<Seq<char>>
    decreases ps.len(),
{
    if m == 0 || ps.len() == 0 {
        ps
    } else if unnamed(ps[0]) {
        skip_named(ps.drop_first(), m)
    } else {
        skip_named(ps.drop_first(), (m - 1) as nat)
    }
}

/// The pieces without the unnamed ones at the front.
pub open spec fn trim_front(ps: Seq<Seq<char>>) -> Seq<Seq<char>>
    decreases ps.len(),
{
    if ps.len() > 0 && unnamed(ps[0]) {
        trim_front(ps.drop_first())
    } else {
        ps
    }
}

/// The pieces without the unnamed ones at the back.
pub open spec fn trim_back(ps: Seq<Seq<char>>) -> Seq<Seq<char>>
    decreases ps.len(),
{
    if ps.len() > 0 && unnamed(ps.last()) {
        trim_back(ps.drop_last())
    } else {
        ps
    }
}

/// The rest of `path` after `base` (`Path::strip_prefix`), as the text of
/// `path` that follows the components of `base`: from the next named piece
/// to the last one, with what lies between them kept as written. Under a
/// base without components, `path` itself with its trailing slashes and `.`
/// pieces cut (its root or leading `.` stays).
pub open spec fn path_strip_prefix(path: Seq<char>, base: Seq<char>) -> Option<Seq<char>> {
    if path_starts_with(path, base) {
        let ps = split_on(path, '/');
        if components(base).len() == 0 {
            if named_pieces(ps).len() > 0 {
                Some(join_pieces(trim_back(ps)))
            } else {
                Some(path_of_components(components(path)))
            }
        } else {
            let m = named_pieces(split_on(base, '/')).len();
            Some(join_pieces(trim_back(trim_front(skip_named(ps, m)))))
        }
    } else {
        None
    }
}

/// `base` with `rel` appended (`Path::join`): an absolute `rel` replaces
/// `base`, and a `/` goes between them unless `base` is empty or ends with one.
pub open spec fn path_join(base: Seq<char>, rel: Seq<char>) -> Seq<char> {
    if rel.len() > 0 && rel[0] == '/' {
        rel
    } else if base.len() > 0 && base.last() != '/' {
        base + seq!['/'] + rel
    } else {
        base + rel
    }
}

/// A component that names a file or directory (not the root, `.` or `..`).
pub open spec fn is_named(c: Seq<char>) -> bool {
    c != seq!['/'] && c != seq!['.'] && c != seq!['.', '.']
}

/// The last component when it names something (`Path::file_name`).
pub open spec fn file_name(path: Seq<char>) -> Option<Seq<char>> {
    let cs = components(path);
    if cs.len() > 0 && is_named(cs.last()) {
        Some(cs.last())
    } else {
        None
    }
}

/// The path without its last component (`Path::parent`); the root and the
/// empty path have none.
pub open spec fn parent(path: Seq<char>) -> Option<Seq<char>> {
    let cs = components(path);
    if cs.len() > 0 && cs.last() != seq!['/'] {
        Some(path_of_components(cs.drop_last()))
    } else {
        None
    }
}

/// The components of a path.
pub fn components_exec(path: &[char]) -> (r: Vec<Vec<char>>)
    ensures
        views(r@) == components(path@),
{
    let pieces = split_on_exec(path, '/');
    proof {
        lemma_split_on_nonempty(path@, '/');
    }
    let ghost ps = split_on(path@, '/');
    let dot = vec!['.'];
    assert(dot@ =~= seq!['.']);
    let mut r: Vec<Vec<char>> = Vec::new();
    if path.len() > 0 && path[0] == '/' {
        let root = vec!['/'];
        assert(root@ =~= seq!['/']);
        r.push(root);
        assert(views(r@) =~= seq![seq!['/']]);
    } else if chars_eq(pieces[0].as_slice(), &dot) {
        let here = vec!['.'];
        assert(here@ =~= seq!['.']);
        r.push(here);
        assert(views(r@) =~= seq![seq!['.']]);
    } else {
        assert(views(r@) =~= Seq::<Seq<char>>::empty());
    }
    let ghost head = views(r@);
    let mut i: usize = 0;
    assert(ps.take(0) =~= Seq::<Seq<char>>::empty());
    while i < pieces.len()
        invariant
            i <= pieces@.len(),
            views(pieces@) == ps,
            dot@ == seq!['.'],
            views(r@) =~= head + named_pieces(ps.take(i as int)),
        decreases pieces.len() - i,
    {
        assert(ps.take(i + 1).drop_last() =~= ps.take(i as int));
        assert(ps.take(i + 1).last() == pieces@[i as int]@);
        let p = pieces[i].as_slice();
        assert(p@ == ps[i as int]);
        let ghost before = views(r@);
        if !(p.len() == 0 || chars_eq(p, &dot)) {
            let piece = slice_chars(p, 0, p.len());
            assert(piece@ =~= ps[i as int]);
            r.push(piece);
            assert(views(r@) =~= before.push(ps[i as int]));
            assert(named_pieces(ps.take(i + 1)) == named_pieces(ps.take(i as int)).push(ps[i as int]));
        } else {
            assert(named_pieces(ps.take(i + 1)) == named_pieces(ps.take(i as int)));
        }
        i += 1;
        assert(views(r@) =~= head + named_pieces(ps.take(i as int)));
    }
    assert(ps.take(pieces@.len() as int) =~= ps);
    r
}

/// The pieces joined with `/`.
pub fn join_pieces_exec(ps: &[Vec<char>]) -> (r: Vec<char>)
    ensures
        r@ == join_pieces(views(ps@)),
{
    let ghost v = views(ps@);
    if ps.len() == 0 {
        return Vec::new();
    }
    let mut r = ps[0].clone();
    let mut i: usize = 1;
    assert(v.take(1).drop_last() =~= Seq::<Seq<char>>::empty());
    assert(r@ == join_pieces(v.take(1)));
    while i < ps.len()
        invariant
            1 <= i <= ps@.len(),
            v == views(ps@),
            r@ == join_pieces(v.take(i as int)),
        decreases ps.len() - i,
    {
        assert(v.take(i + 1).drop_last() =~= v.take(i as int));
        let slash = vec!['/'];
        assert(slash@ =~= seq!['/']);
        let with_slash = concat(&r, &slash);
        r = concat(&with_slash, ps[i].as_slice());
        i += 1;
    }
    assert(v.take(ps@.len() as int) =~= v);
    r
}

/// The path written by a sequence of components.
pub fn path_of_components_exec(cs: &[Vec<char>]) -> (r: Vec<char>)
    ensures
        r@ == path_of_components(views(cs@)),
{
    let root = vec!['/'];
    assert(root@ =~= seq!['/']);
    if cs.len() > 0 && chars_eq(cs[0].as_slice(), &root) {
        let rest = join_pieces_exec(&cs[1..cs.len()]);
        assert(views(cs@.subrange(1, cs@.len() as int)) =~= views(cs@).drop_first());
        concat(&root, &rest)
    } else {
        join_pieces_exec(cs)
    }
}

/// `Path::starts_with`.
pub fn path_starts_with_exec(path: &str, base: &str) -> (r: bool)
    ensures
        r == path_starts_with(path@, base@),
{
    let cp = components_exec(&chars_of(path));
    let cb = components_exec(&chars_of(base));
    assert(views(cb@).len() == cb@.len() && views(cp@).len() == cp@.len());
    if cb.len() > cp.len() {
        return false;
    }
    let mut i: usize = 0;
    while i < cb.len()
        invariant
            i <= cb@.len() <= cp@.len(),
            views(cp@) == components(path@),
            views(cb@) == components(base@),
            forall|j: int| 0 <= j < i ==> cp@[j]@ == cb@[j]@,
        decreases cb.len() - i,
    {
        if !chars_eq(cp[i].as_slice(), cb[i].as_slice()) {
            assert(views(cp@).take(cb@.len() as int)[i as int] != views(cb@)[i as int]);
            assert(views(cp@).take(cb@.len() as int) != views(cb@));
            return false;
        }
        i += 1;
    }
    assert(views(cp@).take(cb@.len() as int) =~= views(cb@));
    true
}

/// Whether a piece names nothing.
fn unnamed_exec(p: &[char]) -> (r: bool)
    ensures
        r == unnamed(p@),
{
    let dot = vec!['.'];
    assert(dot@ =~= seq!['.']);
    p.len() == 0 || chars_eq(p, &dot)
}

/// How many pieces name something.
fn count_named(ps: &[Vec<char>]) -> (n: usize)
    ensures
        n == named_pieces(views(ps@)).len(),
{
    let ghost v = views(ps@);
    let mut n: usize = 0;
    let mut i: usize = 0;
    assert(v.take(0) =~= Seq::<Seq<char>>::empty());
    while i < ps.len()
        invariant
            i <= ps@.len(),
            v == views(ps@),
            n <= i,
            n == named_pieces(v.take(i as int)).len(),
        decreases ps.len() - i,
    {
        assert(v.take(i + 1).drop_last() =~= v.take(i as int));
        assert(v.take(i + 1).last() == ps@[i as int]@);
        if !unnamed_exec(ps[i].as_slice()) {
            n += 1;
        }
        i += 1;
    }
    assert(v.take(ps@.len() as int) =~= v);
    n
}

/// Where the pieces after the first `m` named ones begin.
fn index_after_named(ps: &[Vec<char>], m: usize) -> (i: usize)
    ensures
        i <= ps@.len(),
        skip_named(views(ps@), m as nat) == views(ps@).skip(i as int),
{
    let ghost v = views(ps@);
    let mut i: usize = 0;
    let mut k: usize = m;
    assert(v.skip(0) =~= v);
    while i < ps.len() && k > 0
        invariant
            i <= ps@.len(),
            v == views(ps@),
            skip_named(v, m as nat) == skip_named(v.skip(i as int), k as nat),
        decreases ps.len() - i,
    {
        assert(v.skip(i as int).drop_first() =~= v.skip(i + 1));
        assert(v.skip(i as int)[0] == ps@[i as int]@);
        if !unnamed_exec(ps[i].as_slice()) {
            k -= 1;
        }
        i += 1;
    }
    i
}

/// The first piece from `i` on that names something (or the end).
fn index_of_named_from(ps: &[Vec<char>], i: usize) -> (j: usize)
    requires
        i <= ps@.len(),
    ensures
        i <= j <= ps@.len(),
        trim_front(views(ps@).skip(i as int)) == views(ps@).skip(j as int),
{
    let ghost v = views(ps@);
    let mut j: usize = i;
    while j < ps.len() && unnamed_exec(ps[j].as_slice())
        invariant
            i <= j <= ps@.len(),
            v == views(ps@),
            trim_front(v.skip(i as int)) == trim_front(v.skip(j as int)),
        decreases ps.len() - j,
    {
        assert(v.skip(j as int).drop_first() =~= v.skip(j + 1));
        assert(v.skip(j as int)[0] == ps@[j as int]@);
        j += 1;
    }
    if j < ps.len() {
        assert(v.skip(j as int)[0] == ps@[j as int]@);
    }
    j
}

/// The end of the pieces from `j` on once the unnamed ones at the back are cut.
fn end_of_named(ps: &[Vec<char>], j: usize) -> (e: usize)
    requires
        j <= ps@.len(),
    ensures
        j <= e <= ps@.len(),
        trim_back(views(ps@).skip(j as int)) == views(ps@).subrange(j as int, e as int),
{
    let ghost v = views(ps@);
    let mut e: usize = ps.len();
    assert(v.subrange(j as int, v.len() as int) =~= v.skip(j as int));
    while e > j && unnamed_exec(ps[e - 1].as_slice())
        invariant
            j <= e <= ps@.len(),
            v == views(ps@),
            trim_back(v.skip(j as int)) == trim_back(v.subrange(j as int, e as int)),
        decreases e,
    {
        assert(v.subrange(j as int, e as int).drop_last() =~= v.subrange(j as int, e - 1));
        assert(v.subrange(j as int, e as int).last() == ps@[e - 1]@);
        e -= 1;
    }
    if e > j {
        assert(v.subrange(j as int, e as int).last() == ps@[e - 1]@);
    }
    e
}

/// `Path::strip_prefix`: the text of `path` that follows the components of `base`.
pub fn path_strip_prefix_exec(path: &str, base: &str) -> (r: Option<String>)
    ensures
        match r {
            Some(t) => path_strip_prefix(path@, base@) == Some(t@),
            None => path_strip_prefix(path@, base@) is None,
        },
{
    if !path_starts_with_exec(path, base) {
        return None;
    }
    let pc = chars_of(path);
    let ps = split_on_exec(&pc, '/');
    let bc = chars_of(base);
    let cb = components_exec(&bc);
    assert(views(cb@).len() == cb@.len());
    if cb.len() == 0 {
        if count_named(&ps) == 0 {
            let cp = components_exec(&pc);
            return Some(string_of(&path_of_components_exec(&cp)));
        }
        let e = end_of_named(&ps, 0);
        let rest = join_pieces_exec(&ps[0..e]);
        assert(views(ps@).skip(0) =~= views(ps@));
        assert(views(ps@.subrange(0, e as int)) =~= views(ps@).subrange(0, e as int));
        return Some(string_of(&rest));
    }
    let bs = split_on_exec(&bc, '/');
    let m = count_named(&bs);
    let i = index_after_named(&ps, m);
    let j = index_of_named_from(&ps, i);
    let e = end_of_named(&ps, j);
    let rest = join_pieces_exec(&ps[j..e]);
    assert(views(ps@.subrange(j as int, e as int)) =~= views(ps@).subrange(j as int, e as int));
    Some(string_of(&rest))
}

/// `Path::join`.
pub fn path_join_exec(base: &str, rel: &str) -> (r: String)
    ensures
        r@ == path_join(base@, rel@),
{
    let b = chars_of(base);
    let t = chars_of(rel);
    if t.len() > 0 && t[0] == '/' {
        return string_of(&t);
    }
    if b.len() > 0 && b[b.len() - 1] != '/' {
        let slash = vec!['/'];
        assert(slash@ =~= seq!['/']);
        let with_slash = concat(&b, &slash);
        string_of(&concat(&with_slash, &t))
    } else {
        string_of(&concat(&b, &t))
    }
}

/// `Path::file_name`.
pub fn file_name_exec(path: &str) -> (r: Option<String>)
    ensures
        match r {
            Some(t) => file_name(path@) == Some(t@),
            None => file_name(path@) is None,
        },
{
    let cs = components_exec(&chars_of(path));
    if cs.len() == 0 {
        return None;
    }
    let last = cs[cs.len() - 1].as_slice();
    let root = vec!['/'];
    assert(root@ =~= seq!['/']);
    let dot = vec!['.'];
    assert(dot@ =~= seq!['.']);
    let dotdot = vec!['.', '.'];
    assert(dotdot@ =~= seq!['.', '.']);
    if chars_eq(last, &root) || chars_eq(last, &dot) || chars_eq(last, &dotdot) {
        None
    } else {
        Some(string_of(last))
    }
}

/// `Path::parent`.
pub fn parent_exec(path: &str) -> (r: Option<String>)
    ensures
        match r {
            Some(t) => parent(path@) == Some(t@),
            None => parent(path@) is None,
        },
{
    let cs = components_exec(&chars_of(path));
    if cs.len() == 0 {
        return None;
    }
    let root = vec!['/'];
    assert(root@ =~= seq!['/']);
    if chars_eq(cs[cs.len() - 1].as_slice(), &root) {
        return None;
    }
    let init = path_of_components_exec(&cs[0..cs.len() - 1]);
    assert(views(cs@.subrange(0, cs@.len() - 1)) =~= views(cs@).drop_last());
    Some(string_of(&init))
}


/// Two paths with the same components.
pub open spec fn same_path(a: Seq<char>, b: Seq<char>) -> bool {
    components(a) == components(b)
}

/// Mutual prefixes have the same components.
pub proof fn lemma_same_path(a: Seq<char>, b: Seq<char>)
    ensures
        same_path(a, b) <==> (path_starts_with(a, b) && path_starts_with(b, a)),
{
    let ca = components(a);
    let cb = components(b);
    if path_starts_with(a, b) && path_starts_with(b, a) {
        assert(ca.len() == cb.len());
        assert(ca.take(cb.len() as int) =~= ca);
    }
    if same_path(a, b) {
        assert(ca.take(cb.len() as int) =~= cb);
    }
}

/// Whether two paths have the same components.
pub fn same_path_exec(a: &str, b: &str) -> (r: bool)
    ensures
        r == same_path(a@, b@),
{
    proof {
        lemma_same_path(a@, b@);
    }
    path_starts_with_exec(a, b) && path_starts_with_exec(b, a)
}


/// The named pieces of two runs of pieces are those of each.
proof fn lemma_named_pieces_concat(p: Seq<Seq<char>>, q: Seq<Seq<char>>)
    ensures
        named_pieces(p + q) == named_pieces(p) + named_pieces(q),
    decreases q.len(),
{
    if q.len() == 0 {
        assert(p + q =~= p);
    } else {
        lemma_named_pieces_concat(p, q.drop_last());
        assert((p + q).drop_last() =~= p + q.drop_last());
    }
}

/// No piece of a split holds the separator.
proof fn lemma_split_pieces_without_sep(s: Seq<char>, c: char)
    ensures
        forall|i: int| 0 <= i < split_on(s, c).len() ==> !(#[trigger] split_on(s, c)[i]).contains(c),
    decreases s.len(),
{
    if s.len() > 0 {
        lemma_split_pieces_without_sep(s.drop_last(), c);
        lemma_split_on_nonempty(s.drop_last(), c);
        let init = split_on(s.drop_last(), c);
        if s.last() != c {
            let last = init.last().push(s.last());
            assert(!last.contains(c)) by {
                if last.contains(c) {
                    let k = choose|k: int| 0 <= k < last.len() && last[k] == c;
                    if k < init.last().len() {
                        assert(init[init.len() - 1][k] == c);
                        assert(init[init.len() - 1].contains(c));
                    }
                }
            }
        } else {
            assert(!Seq::<char>::empty().contains(c));
        }
    }
}

/// Named pieces are non-empty, not `.`, and pieces of the input.
proof fn lemma_named_pieces_are_names(ps: Seq<Seq<char>>)
    ensures
        forall|i: int|
            0 <= i < named_pieces(ps).len() ==> (#[trigger] named_pieces(ps)[i]).len() > 0
                && named_pieces(ps)[i] != seq!['.'] && exists|j: int| 0 <= j < ps.len() && ps[j] == named_pieces(ps)[i],
    decreases ps.len(),
{
    if ps.len() > 0 {
        lemma_named_pieces_are_names(ps.drop_last());
        let init = named_pieces(ps.drop_last());
        assert forall|i: int| 0 <= i < init.len() implies exists|j: int| 0 <= j < ps.len() && ps[j] == #[trigger] init[i] by {
            let j = choose|j: int| 0 <= j < ps.drop_last().len() && ps.drop_last()[j] == init[i];
            assert(ps[j] == init[i]);
        }
        assert(ps[ps.len() - 1] == ps.last());
    }
}

/// An empty piece names nothing.
proof fn lemma_named_pieces_of_empty_piece()
    ensures
        named_pieces(seq![Seq::<char>::empty()]) == Seq::<Seq<char>>::empty(),
{
    assert(seq![Seq::<char>::empty()].drop_last() =~= Seq::<Seq<char>>::empty());
    assert(named_pieces(Seq::<Seq<char>>::empty()) == Seq::<Seq<char>>::empty());
}

/// Pieces without `/`, joined with `/`, split back into themselves.
proof fn lemma_split_join(ps: Seq<Seq<char>>)
    requires
        ps.len() >= 1,
        forall|i: int| 0 <= i < ps.len() ==> !(#[trigger] ps[i]).contains('/'),
    ensures
        split_on(join_pieces(ps), '/') == ps,
    decreases ps.len(),
{
    if ps.len() == 1 {
        lemma_split_on_without_sep(ps[0], '/');
        assert(seq![ps[0]] =~= ps);
    } else {
        lemma_split_join(ps.drop_last());
        assert(!ps.last().contains('/')) by {
            assert(ps[ps.len() - 1] == ps.last());
        }
        lemma_split_on_without_sep(ps.last(), '/');
        lemma_split_on_concat(join_pieces(ps.drop_last()), ps.last(), '/');
        assert(ps.drop_last() + seq![ps.last()] =~= ps);
    }
}

/// Joined pieces start with the first character of the first piece.
proof fn lemma_join_first(ps: Seq<Seq<char>>)
    requires
        ps.len() >= 1,
        ps[0].len() > 0,
    ensures
        join_pieces(ps).len() > 0,
        join_pieces(ps)[0] == ps[0][0],
    decreases ps.len(),
{
    if ps.len() > 1 {
        lemma_join_first(ps.drop_last());
    }
}

/// The named pieces of a run of pieces, read from its first piece.
proof fn lemma_named_pieces_cons(ps: Seq<Seq<char>>)
    requires
        ps.len() > 0,
    ensures
        named_pieces(ps) == if unnamed(ps[0]) {
            named_pieces(ps.drop_first())
        } else {
            seq![ps[0]] + named_pieces(ps.drop_first())
        },
{
    let h = seq![ps[0]];
    assert(ps =~= h + ps.drop_first());
    lemma_named_pieces_concat(h, ps.drop_first());
    assert(h.drop_last() =~= Seq::<Seq<char>>::empty());
    assert(named_pieces(h.drop_last()) == Seq::<Seq<char>>::empty());
    assert(h.last() == ps[0]);
    if unnamed(ps[0]) {
        assert(named_pieces(h) =~= Seq::<Seq<char>>::empty());
    } else {
        assert(named_pieces(h) =~= seq![ps[0]]);
    }
}

/// What `skip_named` leaves is a suffix holding the named pieces after the first `m`.
proof fn lemma_skip_named(x: Seq<Seq<char>>, m: nat) -> (i: int)
    requires
        m <= named_pieces(x).len(),
    ensures
        0 <= i <= x.len(),
        skip_named(x, m) == x.skip(i),
        named_pieces(skip_named(x, m)) == named_pieces(x).skip(m as int),
    decreases x.len(),
{
    if m == 0 || x.len() == 0 {
        assert(x.skip(0) =~= x);
        assert(named_pieces(x).skip(0) =~= named_pieces(x));
        0
    } else {
        lemma_named_pieces_cons(x);
        let r = x.drop_first();
        if unnamed(x[0]) {
            let i = lemma_skip_named(r, m);
            assert(r.skip(i) =~= x.skip(i + 1));
            i + 1
        } else {
            let i = lemma_skip_named(r, (m - 1) as nat);
            assert(r.skip(i) =~= x.skip(i + 1));
            assert((seq![x[0]] + named_pieces(r)).skip(m as int) =~= named_pieces(r).skip(m - 1));
            i + 1
        }
    }
}

/// `trim_front` leaves a suffix with the same named pieces, starting with a named one.
proof fn lemma_trim_front(x: Seq<Seq<char>>) -> (i: int)
    ensures
        0 <= i <= x.len(),
        trim_front(x) == x.skip(i),
        named_pieces(trim_front(x)) == named_pieces(x),
        trim_front(x).len() > 0 ==> !unnamed(trim_front(x)[0]),
    decreases x.len(),
{
    if x.len() > 0 && unnamed(x[0]) {
        lemma_named_pieces_cons(x);
        let i = lemma_trim_front(x.drop_first());
        assert(x.drop_first().skip(i) =~= x.skip(i + 1));
        i + 1
    } else {
        assert(x.skip(0) =~= x);
        0
    }
}

/// `trim_back` leaves a prefix with the same named pieces, keeping a named first piece.
proof fn lemma_trim_back(x: Seq<Seq<char>>) -> (k: int)
    ensures
        0 <= k <= x.len(),
        trim_back(x) == x.take(k),
        named_pieces(trim_back(x)) == named_pieces(x),
        x.len() > 0 && !unnamed(x[0]) ==> trim_back(x).len() > 0 && trim_back(x)[0] == x[0],
    decreases x.len(),
{
    if x.len() > 0 && unnamed(x.last()) {
        let k = lemma_trim_back(x.drop_last());
        assert(x.drop_last().take(k) =~= x.take(k));
        if x.len() > 1 {
            assert(x.drop_last()[0] == x[0]);
        } else {
            assert(x.last() == x[0]);
        }
        k
    } else {
        assert(x.take(x.len() as int) =~= x);
        x.len() as int
    }
}

/// Joining an absolute base with what `path_strip_prefix` leaves of a path
/// under it names that path again: the two have the same components.
pub proof fn law_join_after_strip_prefix(path: Seq<char>, base: Seq<char>)
    requires
        base.len() > 0,
        base[0] == '/',
        path_starts_with(path, base),
    ensures
        path_strip_prefix(path, base) matches Some(rel) && same_path(path_join(base, rel), path),
{
    let cb = components(base);
    let cp = components(path);
    let sp = split_on(path, '/');
    let sb = split_on(base, '/');
    let np = named_pieces(sp);
    let nb = named_pieces(sb);
    let m = nb.len();
    assert(cb == seq![seq!['/']] + nb);
    lemma_named_pieces_are_names(sp);
    lemma_split_pieces_without_sep(path, '/');
    assert(cp[0] == cb[0]) by {
        assert(cp.take(cb.len() as int)[0] == cp[0]);
    }
    assert(path.len() > 0 && path[0] == '/') by {
        if !(path.len() > 0 && path[0] == '/') {
            if sp[0] == seq!['.'] {
                assert(cp[0] == seq!['.']);
                assert(seq!['.'][0] != seq!['/'][0]);
            } else {
                assert(cp =~= np);
                let t = choose|t: int| 0 <= t < sp.len() && sp[t] == np[0];
                assert(!sp[t].contains('/'));
                assert(np[0][0] == '/');
            }
        }
    }
    assert(cp == seq![seq!['/']] + np);
    assert(np.take(m as int) =~= nb) by {
        assert forall|t: int| 0 <= t < m implies np.take(m as int)[t] == nb[t] by {
            assert(cp.take(cb.len() as int)[t + 1] == cb[t + 1]);
        }
    }
    let i0 = lemma_skip_named(sp, m);
    let t0 = skip_named(sp, m);
    let i1 = lemma_trim_front(t0);
    let t1 = trim_front(t0);
    let k = lemma_trim_back(t1);
    let t2 = trim_back(t1);
    let rel = join_pieces(t2);
    assert(path_strip_prefix(path, base) == Some(rel));
    assert forall|t: int| 0 <= t < t2.len() implies !(#[trigger] t2[t]).contains('/') by {
        assert(t2[t] == sp[i0 + i1 + t]);
    }
    let sr = split_on(rel, '/');
    assert(named_pieces(sr) == named_pieces(t2) && (rel.len() > 0 ==> rel[0] != '/')) by {
        if t2.len() > 0 {
            lemma_split_join(t2);
            assert(!unnamed(t2[0]));
            lemma_join_first(t2);
            assert(!t2[0].contains('/'));
        } else {
            assert(sr == seq![Seq::<char>::empty()]);
            lemma_named_pieces_of_empty_piece();
        }
    }
    assert(named_pieces(sr) == np.skip(m as int));
    let joined = path_join(base, rel);
    if base.last() != '/' {
        assert(joined == base + seq!['/'] + rel);
        lemma_split_on_concat(base, rel, '/');
        lemma_named_pieces_concat(sb, sr);
        assert(joined[0] == '/');
        assert(components(joined) =~= cp);
    } else {
        let bdl = base.drop_last();
        assert(base =~= bdl + seq!['/'] + Seq::<char>::empty());
        assert(joined =~= bdl + seq!['/'] + rel);
        lemma_split_on_concat(bdl, rel, '/');
        lemma_split_on_concat(bdl, Seq::<char>::empty(), '/');
        assert(split_on(Seq::<char>::empty(), '/') == seq![Seq::<char>::empty()]);
        lemma_named_pieces_concat(split_on(bdl, '/'), sr);
        lemma_named_pieces_concat(split_on(bdl, '/'), seq![Seq::<char>::empty()]);
        lemma_named_pieces_of_empty_piece();
        assert(nb =~= named_pieces(split_on(bdl, '/')));
        assert(joined[0] == '/');
        assert(components(joined) =~= cp);
    }
}

/// Joining a path that does not start at the root keeps the base in front
/// and the joined path at the end.
pub proof fn lemma_join_extends(base: Seq<char>, rel: Seq<char>)
    requires
        !(rel.len() > 0 && rel[0] == '/'),
    ensures
        has_prefix(path_join(base, rel), base),
        has_suffix(path_join(base, rel), rel),
{
    let j = path_join(base, rel);
    if base.len() > 0 && base.last() != '/' {
        assert(j.take(base.len() as int) =~= base);
        assert(j.skip(j.len() - rel.len()) =~= rel);
    } else {
        assert(j.take(base.len() as int) =~= base);
        assert(j.skip(j.len() - rel.len()) =~= rel);
    }
}
} // verus!
