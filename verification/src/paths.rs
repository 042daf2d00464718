//! Slash-separated paths as text: joining, taking apart and comparing, with the
//! meaning that `std::path` gives to them on Unix.
use vstd::prelude::*;

use crate::text;

verus! {

// ---------------------------------------------------------------------------
// Model
// ---------------------------------------------------------------------------

/// The texts between the slashes of a path.
pub open spec fn pieces(s: Seq<char>) -> Seq<Seq<char>> {
    text::split(s, '/')
}

/// Whether a piece is a component of its own: neither empty nor a single dot.
pub open spec fn is_body(p: Seq<char>) -> bool {
    p.len() > 0 && p != seq!['.']
}

pub open spec fn is_absolute(s: Seq<char>) -> bool {
    s.len() > 0 && s[0] == '/'
}

/// Whether a relative path begins with a single dot as its first piece.
pub open spec fn leads_with_dot(s: Seq<char>) -> bool {
    pieces(s)[0] == seq!['.']
}

/// What stands in front of the first ordinary component: a root, a dot or nothing.
pub open spec fn head(s: Seq<char>) -> Seq<char> {
    if is_absolute(s) {
        seq!['/']
    } else if leads_with_dot(s) {
        seq!['.']
    } else {
        Seq::empty()
    }
}

pub open spec fn head_components(s: Seq<char>) -> Seq<Seq<char>> {
    if head(s).len() == 0 {
        Seq::empty()
    } else {
        seq![head(s)]
    }
}

/// The components of a path that are neither its root nor a leading dot.
pub open spec fn body_components(s: Seq<char>) -> Seq<Seq<char>> {
    pieces(s).filter(|p: Seq<char>| is_body(p))
}

/// The components of a path. Two paths are equal when these are.
pub open spec fn components(s: Seq<char>) -> Seq<Seq<char>> {
    head_components(s) + body_components(s)
}

/// The pieces without those behind the last component.
pub open spec fn trim_back(ps: Seq<Seq<char>>) -> Seq<Seq<char>>
    decreases ps.len(),
{
    if ps.len() == 0 || is_body(ps.last()) {
        ps
    } else {
        trim_back(ps.drop_last())
    }
}

/// The pieces from the component after the first `n` on.
pub open spec fn skip_body(ps: Seq<Seq<char>>, n: nat) -> Seq<Seq<char>>
    decreases ps.len(),
{
    if ps.len() == 0 {
        ps
    } else if !is_body(ps[0]) {
        skip_body(ps.drop_first(), n)
    } else if n == 0 {
        ps
    } else {
        skip_body(ps.drop_first(), (n - 1) as nat)
    }
}

/// The text of the pieces that are left of `s` once its end was trimmed.
pub open spec fn text_of(ps: Seq<Seq<char>>, s: Seq<char>) -> Seq<char> {
    if ps.len() == 0 {
        head(s)
    } else {
        text::join(ps, seq!['/'])
    }
}

/// `tail` seen from `base`; an absolute `tail` replaces it.
pub open spec fn join(base: Seq<char>, tail: Seq<char>) -> Seq<char> {
    if is_absolute(tail) || base.len() == 0 {
        tail
    } else if base.last() == '/' {
        base + tail
    } else {
        base.push('/') + tail
    }
}

/// Whether the components of `base` come first in `s`.
pub open spec fn starts_with(s: Seq<char>, base: Seq<char>) -> bool {
    components(base).is_prefix_of(components(s))
}

/// What is left of `s` behind `base`, if `s` lies under `base`.
pub open spec fn strip_prefix(s: Seq<char>, base: Seq<char>) -> Option<Seq<char>> {
    if !starts_with(s, base) {
        None
    } else if components(base).len() == 0 {
        Some(text_of(trim_back(pieces(s)), s))
    } else {
        Some(
            text::join(
                trim_back(skip_body(pieces(s), body_components(base).len())),
                seq!['/'],
            ),
        )
    }
}

/// The path without its last component; a root and an empty path have none.
pub open spec fn parent(s: Seq<char>) -> Option<Seq<char>> {
    let body = trim_back(pieces(s));
    if body.len() > 0 {
        Some(text_of(trim_back(body.drop_last()), s))
    } else if !is_absolute(s) && leads_with_dot(s) {
        Some(Seq::empty())
    } else {
        None
    }
}

/// The last component, unless it is a root or a dot entry.
pub open spec fn file_name(s: Seq<char>) -> Option<Seq<char>> {
    let body = trim_back(pieces(s));
    if body.len() > 0 && body.last() != seq!['.', '.'] {
        Some(body.last())
    } else {
        None
    }
}

// ---------------------------------------------------------------------------
// Facts about the model
// ---------------------------------------------------------------------------

/// A path that begins with a slash has an empty first piece, and only such a path
/// or the empty one has.
pub proof fn lemma_first_piece(s: Seq<char>)
    ensures
        pieces(s).len() >= 1,
        s.len() > 0 ==> ((pieces(s)[0].len() == 0) == (s[0] == '/')),
        s.len() > 0 && s[0] == '/' ==> pieces(s).len() >= 2,
        s.len() == 0 ==> pieces(s) == seq![Seq::<char>::empty()],
    decreases s.len(),
{
    if s.len() > 0 {
        lemma_first_piece(s.drop_last());
        if s.len() == 1 {
            assert(s.drop_last() =~= Seq::<char>::empty());
        }
    }
}

/// Splitting two texts with a slash between them gives the pieces of both.
pub proof fn lemma_split_append(a: Seq<char>, b: Seq<char>)
    ensures
        pieces(a.push('/') + b) == pieces(a) + pieces(b),
    decreases b.len(),
{
    let whole = a.push('/') + b;
    if b.len() == 0 {
        assert(whole.drop_last() =~= a);
        assert(pieces(whole) =~= pieces(a) + pieces(b));
    } else {
        lemma_split_append(a, b.drop_last());
        lemma_first_piece(b.drop_last());
        assert(whole.drop_last() =~= a.push('/') + b.drop_last());
        assert(pieces(whole) =~= pieces(a) + pieces(b));
    }
}

/// Joining the pieces of a path with slashes gives the path back.
pub proof fn lemma_join_split(s: Seq<char>)
    ensures
        text::join(pieces(s), seq!['/']) == s,
    decreases s.len(),
{
    let sep = seq!['/'];
    if s.len() > 0 {
        let front = pieces(s.drop_last());
        lemma_join_split(s.drop_last());
        lemma_first_piece(s.drop_last());
        let ps = pieces(s);
        if s.last() == '/' {
            assert(ps.drop_last() =~= front);
            assert(text::join(ps, sep) =~= s.drop_last() + sep + Seq::<char>::empty());
            assert(text::join(ps, sep) =~= s);
        } else {
            assert(ps.drop_last() =~= front.drop_last());
            assert(ps.last() == front.last().push(s.last()));
            if front.len() == 1 {
                assert(text::join(ps, sep) =~= s);
            } else {
                assert(text::join(ps, sep) =~= text::join(front, sep).push(s.last()));
                assert(text::join(ps, sep) =~= s);
            }
        }
    }
}

pub open spec fn body_count(ps: Seq<Seq<char>>) -> nat {
    ps.filter(|p: Seq<char>| is_body(p)).len()
}

proof fn lemma_filter_first(ps: Seq<Seq<char>>)
    requires
        ps.len() > 0,
    ensures
        ps.filter(|p: Seq<char>| is_body(p)) == (if is_body(ps[0]) {
            seq![ps[0]]
        } else {
            Seq::empty()
        }) + ps.drop_first().filter(|p: Seq<char>| is_body(p)),
{
    let f = |p: Seq<char>| is_body(p);
    let one = seq![ps[0]];
    assert(ps =~= one + ps.drop_first());
    Seq::filter_distributes_over_add(one, ps.drop_first(), f);
    reveal_with_fuel(Seq::filter, 2);
    assert(one.drop_last() =~= Seq::<Seq<char>>::empty());
    assert(one.filter(f) =~= (if is_body(ps[0]) {
        one
    } else {
        Seq::empty()
    }));
}

/// Skipping exactly the components of the first list leaves the second, from its
/// first component on.
proof fn lemma_skip_over(front: Seq<Seq<char>>, rest: Seq<Seq<char>>)
    ensures
        skip_body(front + rest, body_count(front)) == skip_body(rest, 0),
    decreases front.len(),
{
    if front.len() == 0 {
        assert(front + rest =~= rest);
        assert(body_count(front) == 0) by {
            reveal_with_fuel(Seq::filter, 1);
        }
    } else {
        lemma_filter_first(front);
        lemma_skip_over(front.drop_first(), rest);
        assert((front + rest).drop_first() =~= front.drop_first() + rest);
        assert((front + rest)[0] == front[0]);
    }
}

/// A relative path whose first and last pieces are components, so that nothing of
/// its text is lost when it is taken apart.
pub open spec fn is_clean(rel: Seq<char>) -> bool {
    is_body(pieces(rel)[0]) && is_body(pieces(rel).last())
}

/// A clean path placed under a base lies under it, and what is left of it behind
/// the base is that path again.
pub proof fn law_strip_undoes_join(base: Seq<char>, rel: Seq<char>)
    requires
        is_clean(rel),
        base.len() > 0,
    ensures
        starts_with(join(base, rel), base),
        strip_prefix(join(base, rel), base) == Some(rel),
{
    let f = |p: Seq<char>| is_body(p);
    let whole = join(base, rel);
    lemma_first_piece(rel);
    lemma_first_piece(base);
    assert(!is_absolute(rel));
    // The pieces in front of `rel` are those of `base` without its trailing slash.
    let stem = if base.last() == '/' {
        base.drop_last()
    } else {
        base
    };
    assert(whole =~= stem.push('/') + rel);
    lemma_split_append(stem, rel);
    lemma_first_piece(stem);
    lemma_first_piece(whole);
    Seq::filter_distributes_over_add(pieces(stem), pieces(rel), f);
    if base.last() == '/' {
        assert(pieces(base) =~= pieces(stem).push(Seq::empty()));
        assert(pieces(base).drop_last() =~= pieces(stem));
        reveal_with_fuel(Seq::filter, 1);
        assert(body_components(base) == body_components(stem));
    }
    assert(body_components(whole) == body_components(base) + body_components(rel));
    assert(pieces(whole)[0] == pieces(stem)[0]);
    assert(whole[0] == base[0]);
    assert(pieces(base)[0] == pieces(stem)[0]);
    assert(head(whole) == head(base));
    assert(components(whole) =~= components(base) + body_components(rel));
    assert(starts_with(whole, base));
    lemma_skip_over(pieces(stem), pieces(rel));
    assert(skip_body(pieces(rel), 0) == pieces(rel));
    assert(trim_back(pieces(rel)) == pieces(rel));
    lemma_join_split(rel);
    assert(components(base).len() > 0) by {
        if head(base).len() == 0 {
            assert(is_body(pieces(base)[0]));
            lemma_filter_first(pieces(base));
        }
    }
}

/// No piece of a path holds a slash.
pub proof fn lemma_pieces_hold_no_slash(s: Seq<char>, i: int)
    requires
        0 <= i < pieces(s).len(),
    ensures
        !pieces(s)[i].contains('/'),
    decreases s.len(),
{
    if s.len() > 0 {
        let front = pieces(s.drop_last());
        lemma_first_piece(s.drop_last());
        if i < front.len() {
            lemma_pieces_hold_no_slash(s.drop_last(), i);
        }
        if s.last() != '/' && i == front.len() - 1 {
            let piece = front.last().push(s.last());
            assert(pieces(s)[i] == piece);
            assert forall|k: int| 0 <= k < piece.len() implies piece[k] != '/' by {
                if k < front.last().len() {
                    assert(front.last().contains(front.last()[k]));
                }
            }
        }
    }
}

/// A clean path behind a slash loses nothing but the slash.
pub proof fn law_leading_slash_is_stripped(rel: Seq<char>)
    requires
        is_clean(rel),
    ensures
        strip_prefix(seq!['/'] + rel, seq!['/']) == Some(rel),
        is_absolute(seq!['/'] + rel),
{
    lemma_first_piece(rel);
    assert(join(seq!['/'], rel) =~= seq!['/'] + rel);
    law_strip_undoes_join(seq!['/'], rel);
}

/// Behind the root there is nothing.
pub proof fn lemma_bare_root()
    ensures
        strip_prefix(seq!['/'], seq!['/']) == Some(Seq::<char>::empty()),
{
    let root = seq!['/'];
    reveal_with_fuel(text::split, 2);
    assert(root.drop_last() =~= Seq::<char>::empty());
    assert(pieces(root) =~= seq![Seq::<char>::empty(), Seq::<char>::empty()]);
    reveal_with_fuel(Seq::filter, 3);
    assert(pieces(root).drop_last() =~= seq![Seq::<char>::empty()]);
    assert(pieces(root).drop_last().drop_last() =~= Seq::<Seq<char>>::empty());
    assert(body_components(root) =~= Seq::<Seq<char>>::empty());
    assert(components(root) =~= components(root).take(components(root).len() as int));
    reveal_with_fuel(skip_body, 3);
    assert(pieces(root).drop_first() =~= seq![Seq::<char>::empty()]);
    assert(pieces(root).drop_first().drop_first() =~= Seq::<Seq<char>>::empty());
}

/// The first component of a clean path is its first piece.
pub proof fn lemma_clean_components(rel: Seq<char>)
    requires
        is_clean(rel),
    ensures
        components(rel).len() > 0,
        components(rel)[0] == pieces(rel)[0],
{
    lemma_first_piece(rel);
    lemma_filter_first(pieces(rel));
}

/// Two clean paths, one behind the other, are a clean path.
pub proof fn lemma_clean_join(base: Seq<char>, rel: Seq<char>)
    requires
        is_clean(base),
        is_clean(rel),
    ensures
        is_clean(join(base, rel)),
{
    lemma_first_piece(base);
    lemma_first_piece(rel);
    if base.last() == '/' {
        assert(pieces(base).last().len() == 0);
    }
    lemma_split_append(base, rel);
}

/// A relative path does not lie below the root.
pub proof fn law_relative_path_has_no_root(rel: Seq<char>)
    requires
        !is_absolute(rel),
    ensures
        strip_prefix(rel, seq!['/']) is None,
{
    let root = seq!['/'];
    lemma_first_piece(root);
    assert(components(root)[0] == root);
    if starts_with(rel, root) {
        assert(components(rel)[0] == components(root)[0]) by {
            assert(components(root) =~= components(rel).take(components(root).len() as int));
        }
        if head(rel).len() == 0 {
            let body = body_components(rel);
            assert(components(rel) =~= body);
            assert(body.contains(body[0]));
            pieces(rel).lemma_filter_contains_rev(|p: Seq<char>| is_body(p), body[0]);
            let i = choose|i: int| 0 <= i < pieces(rel).len() && pieces(rel)[i] == body[0];
            lemma_pieces_hold_no_slash(rel, i);
            assert(root.contains(root[0]));
        }
    }
}

/// Whether a text is a name: a single component that is no dot entry.
pub open spec fn is_name(n: Seq<char>) -> bool {
    is_body(n) && n != seq!['.', '.'] && !n.contains('/')
}

proof fn lemma_single_piece(n: Seq<char>)
    requires
        !n.contains('/'),
    ensures
        pieces(n) == seq![n],
    decreases n.len(),
{
    if n.len() > 0 {
        assert(n.contains(n[n.len() - 1]));
        assert forall|i: int| 0 <= i < n.drop_last().len() implies n.drop_last()[i] != '/' by {
            assert(n.contains(n[i]));
        }
        lemma_single_piece(n.drop_last());
        assert(n.drop_last().push(n.last()) =~= n);
        assert(pieces(n) =~= seq![n]);
    } else {
        assert(n =~= Seq::empty());
    }
}

/// A name placed under a directory is the last component of the path.
pub proof fn law_joined_name_is_last(dir: Seq<char>, name: Seq<char>)
    requires
        is_name(name),
    ensures
        file_name(join(dir, name)) == Some(name),
{
    lemma_single_piece(name);
    assert(name.contains(name[0]));
    let whole = join(dir, name);
    if dir.len() == 0 {
        assert(trim_back(pieces(whole)) == pieces(whole));
    } else {
        let stem = if dir.last() == '/' {
            dir.drop_last()
        } else {
            dir
        };
        assert(whole =~= stem.push('/') + name);
        lemma_split_append(stem, name);
        assert(pieces(whole).last() == name);
        assert(trim_back(pieces(whole)) == pieces(whole));
    }
}

proof fn lemma_join_of_front(ps: Seq<Seq<char>>, n: int)
    requires
        0 <= n <= ps.len(),
    ensures
        text::join(ps.take(n), seq!['/']).is_prefix_of(text::join(ps, seq!['/'])),
    decreases ps.len(),
{
    let sep = seq!['/'];
    let whole = text::join(ps, sep);
    if n == ps.len() {
        assert(ps.take(n) =~= ps);
        assert(whole =~= whole.take(whole.len() as int));
    } else if n == 0 {
        assert(ps.take(0) =~= Seq::empty());
        assert(text::join(ps.take(0), sep) =~= whole.take(0));
    } else {
        lemma_join_of_front(ps.drop_last(), n);
        assert(ps.drop_last().take(n) =~= ps.take(n));
        let front = text::join(ps.take(n), sep);
        let most = text::join(ps.drop_last(), sep);
        assert(whole == most + sep + ps.last());
        assert(front =~= whole.take(front.len() as int)) by {
            assert(front =~= most.take(front.len() as int));
        }
    }
}

proof fn lemma_trim_is_front(ps: Seq<Seq<char>>)
    ensures
        trim_back(ps).len() <= ps.len(),
        trim_back(ps) == ps.take(trim_back(ps).len() as int),
    decreases ps.len(),
{
    if ps.len() == 0 || is_body(ps.last()) {
        assert(ps.take(ps.len() as int) =~= ps);
    } else {
        lemma_trim_is_front(ps.drop_last());
        assert(ps.drop_last().take(trim_back(ps).len() as int) =~= ps.take(
            trim_back(ps).len() as int,
        ));
    }
}

/// A name placed under a clean directory lies in that directory.
pub proof fn law_joined_name_lies_in_its_directory(dir: Seq<char>, name: Seq<char>)
    requires
        is_clean(dir),
        is_name(name),
    ensures
        parent(join(dir, name)) == Some(dir),
{
    let whole = join(dir, name);
    lemma_first_piece(dir);
    lemma_single_piece(name);
    lemma_join_split(dir);
    assert(name.contains(name[0]));
    assert(dir.last() != '/') by {
        if dir.last() == '/' {
            let front = dir.drop_last();
            assert(front.push('/') + Seq::<char>::empty() =~= dir);
            lemma_split_append(front, Seq::empty());
            lemma_first_piece(Seq::empty());
            assert(pieces(dir).last().len() == 0);
        }
    }
    lemma_split_append(dir, name);
    assert(pieces(whole).last() == name);
    assert(trim_back(pieces(whole)) == pieces(whole));
    assert(pieces(whole).drop_last() =~= pieces(dir));
}

/// The directory part of a path holds no character that the path does not hold.
pub proof fn lemma_parent_keeps_out(s: Seq<char>, c: char)
    requires
        !s.contains(c),
        c != '/' && c != '.',
    ensures
        parent(s) matches Some(p) ==> !p.contains(c),
{
    let ps = pieces(s);
    let body = trim_back(ps);
    lemma_trim_is_front(ps);
    lemma_trim_is_front(body.drop_last());
    if parent(s) is Some && body.len() > 0 {
        let left = trim_back(body.drop_last());
        if left.len() > 0 {
            assert(left =~= ps.take(left.len() as int));
            lemma_join_of_front(ps, left.len() as int);
            lemma_join_split(s);
            let p = text::join(left, seq!['/']);
            assert forall|i: int| 0 <= i < p.len() implies p[i] != c by {
                assert(p[i] == s[i]);
                assert(s.contains(s[i]));
            }
        }
    }
}

// ---------------------------------------------------------------------------
// Operations
// ---------------------------------------------------------------------------

fn piece_is_body(p: &String) -> (r: bool)
    ensures
        r == is_body(p@),
{
    let v = text::chars_of(p.as_str());
    if v.len() == 0 {
        return false;
    }
    if v.len() == 1 && v[0] == '.' {
        assert(p@ =~= seq!['.']);
        return false;
    }
    assert(p@ != seq!['.']);
    true
}

fn copy_pieces(v: &Vec<String>, from: usize, to: usize) -> (out: Vec<String>)
    requires
        from <= to <= v@.len(),
    ensures
        text::views(out@) == text::views(v@).subrange(from as int, to as int),
        out@.len() == to - from,
{
    let mut out: Vec<String> = Vec::new();
    let mut i: usize = from;
    while i < to
        invariant
            from <= i <= to <= v@.len(),
            text::views(out@) =~= text::views(v@).subrange(from as int, i as int),
            out@.len() == i - from,
        decreases to - i,
    {
        let ghost before = out@;
        let p = v[i].clone();
        out.push(p);
        assert(text::views(out@) =~= text::views(before).push(p@));
        i += 1;
    }
    out
}

/// How many pieces are left once the end is trimmed.
fn trimmed_len(v: &Vec<String>) -> (n: usize)
    ensures
        n <= v@.len(),
        text::views(v@).take(n as int) == trim_back(text::views(v@)),
{
    let mut n: usize = v.len();
    assert(text::views(v@).take(n as int) =~= text::views(v@));
    while n > 0
        invariant
            n <= v@.len(),
            trim_back(text::views(v@).take(n as int)) == trim_back(text::views(v@)),
        ensures
            n <= v@.len(),
            text::views(v@).take(n as int) == trim_back(text::views(v@)),
        decreases n,
    {
        let ghost all = text::views(v@);
        assert(all.take(n as int).last() == v@[n - 1]@);
        if piece_is_body(&v[n - 1]) {
            break;
        }
        assert(all.take(n as int).drop_last() =~= all.take(n - 1));
        n -= 1;
    }
    n
}

fn slash_join(v: &Vec<String>) -> (out: String)
    ensures
        out@ == text::join(text::views(v@), seq!['/']),
{
    proof {
        reveal_strlit("/");
    }
    assert("/"@ =~= seq!['/']);
    text::join_strings(v, "/")
}

/// The root, the leading dot or the empty text in front of the components.
fn head_of(s: &str) -> (out: String)
    ensures
        out@ == head(s@),
{
    let v = text::chars_of(s);
    if v.len() > 0 && v[0] == '/' {
        let mut out = String::new();
        out.push('/');
        assert(out@ =~= seq!['/']);
        return out;
    }
    let ps = text::split_char(s, '/');
    let first = text::chars_of(ps[0].as_str());
    assert(pieces(s@)[0] == ps@[0]@);
    if first.len() == 1 && first[0] == '.' {
        assert(ps@[0]@ =~= seq!['.']);
        let mut out = String::new();
        out.push('.');
        assert(out@ =~= seq!['.']);
        out
    } else {
        String::new()
    }
}

/// The components of a path.
pub fn components_of(s: &str) -> (out: Vec<String>)
    ensures
        text::views(out@) == components(s@),
{
    let mut out: Vec<String> = Vec::new();
    let h = head_of(s);
    if !h.as_str().is_empty() {
        out.push(h);
    }
    assert(text::views(out@) =~= head_components(s@));
    let ps = text::split_char(s, '/');
    let ghost f = |p: Seq<char>| is_body(p);
    let mut i: usize = 0;
    assert(pieces(s@).take(0).filter(f) =~= Seq::<Seq<char>>::empty()) by {
        reveal_with_fuel(Seq::filter, 1);
    }
    while i < ps.len()
        invariant
            i <= ps@.len(),
            text::views(ps@) == pieces(s@),
            f == (|p: Seq<char>| is_body(p)),
            text::views(out@) =~= head_components(s@) + pieces(s@).take(i as int).filter(f),
        decreases ps@.len() - i,
    {
        let ghost before = out@;
        assert(pieces(s@).take(i + 1).drop_last() =~= pieces(s@).take(i as int));
        assert(pieces(s@).take(i + 1).last() == ps@[i as int]@);
        reveal_with_fuel(Seq::filter, 1);
        if piece_is_body(&ps[i]) {
            let p = ps[i].clone();
            out.push(p);
            assert(text::views(out@) =~= text::views(before).push(p@));
        }
        i += 1;
    }
    assert(pieces(s@).take(i as int) =~= pieces(s@));
    out
}

fn has_prefix(v: &Vec<String>, prefix: &Vec<String>) -> (r: bool)
    ensures
        r == text::views(prefix@).is_prefix_of(text::views(v@)),
{
    if prefix.len() > v.len() {
        return false;
    }
    let mut i: usize = 0;
    while i < prefix.len()
        invariant
            i <= prefix@.len() <= v@.len(),
            forall|k: int| 0 <= k < i ==> text::views(prefix@)[k] == text::views(v@)[k],
        decreases prefix@.len() - i,
    {
        if prefix[i] != v[i] {
            assert(text::views(prefix@)[i as int] != text::views(v@)[i as int]);
            assert(text::views(v@).subrange(0, prefix@.len() as int)[i as int] == text::views(v@)[i as int]);
            return false;
        }
        i += 1;
    }
    assert(text::views(prefix@) =~= text::views(v@).subrange(0, prefix@.len() as int));
    true
}

/// Whether the path `s` lies at or under `base`.
pub fn path_starts_with(s: &str, base: &str) -> (r: bool)
    ensures
        r == starts_with(s@, base@),
{
    let c = components_of(s);
    let b = components_of(base);
    has_prefix(&c, &b)
}

/// Whether two texts name the same path.
pub fn same_path(a: &str, b: &str) -> (r: bool)
    ensures
        r == (components(a@) == components(b@)),
{
    let ca = components_of(a);
    let cb = components_of(b);
    if ca.len() != cb.len() {
        assert(text::views(ca@).len() != text::views(cb@).len());
        return false;
    }
    let r = has_prefix(&ca, &cb);
    assert(text::views(ca@).subrange(0, cb@.len() as int) =~= text::views(ca@));
    r
}

/// `tail` seen from `base`.
pub fn join_path(base: &str, tail: &str) -> (out: String)
    ensures
        out@ == join(base@, tail@),
{
    let bv = text::chars_of(base);
    let tv = text::chars_of(tail);
    if bv.len() == 0 || (tv.len() > 0 && tv[0] == '/') {
        return tail.to_owned();
    }
    let mut out = base.to_owned();
    if bv[bv.len() - 1] != '/' {
        out.push('/');
    }
    out.append(tail);
    out
}

/// How many pieces stand in front of the component after the first `n`.
fn skipped_len(v: &Vec<String>, n: usize) -> (at: usize)
    ensures
        at <= v@.len(),
        text::views(v@).skip(at as int) == skip_body(text::views(v@), n as nat),
{
    let mut left: usize = n;
    let mut at: usize = 0;
    assert(text::views(v@).skip(0) =~= text::views(v@));
    while at < v.len()
        invariant
            at <= v@.len(),
            skip_body(text::views(v@).skip(at as int), left as nat) == skip_body(
                text::views(v@),
                n as nat,
            ),
        ensures
            at <= v@.len(),
            text::views(v@).skip(at as int) == skip_body(text::views(v@), n as nat),
        decreases v@.len() - at,
    {
        let ghost all = text::views(v@);
        assert(all.skip(at as int)[0] == v@[at as int]@);
        assert(all.skip(at as int).drop_first() =~= all.skip(at + 1));
        if piece_is_body(&v[at]) {
            if left == 0 {
                break;
            }
            left -= 1;
        }
        at += 1;
    }
    at
}

/// What is left of `s` behind `base`, if `s` lies under `base`.
pub fn strip_base(s: &str, base: &str) -> (r: Option<String>)
    ensures
        match r {
            Some(rest) => strip_prefix(s@, base@) == Some(rest@),
            None => strip_prefix(s@, base@) is None,
        },
{
    let c = components_of(s);
    let b = components_of(base);
    if !has_prefix(&c, &b) {
        return None;
    }
    let ps = text::split_char(s, '/');
    assert(text::views(b@).len() == b@.len());
    if b.len() == 0 {
        let n = trimmed_len(&ps);
        if n == 0 {
            return Some(head_of(s));
        }
        let kept = copy_pieces(&ps, 0, n);
        assert(text::views(kept@) =~= text::views(ps@).take(n as int));
        return Some(slash_join(&kept));
    }
    let h = head_of(base);
    let skip: usize = if h.as_str().is_empty() {
        b.len()
    } else {
        b.len() - 1
    };
    assert(skip == body_components(base@).len());
    let at = skipped_len(&ps, skip);
    let rest = copy_pieces(&ps, at, ps.len());
    assert(text::views(rest@) =~= text::views(ps@).skip(at as int));
    let n = trimmed_len(&rest);
    let kept = copy_pieces(&rest, 0, n);
    assert(text::views(kept@) =~= text::views(rest@).take(n as int));
    Some(slash_join(&kept))
}

/// The path without its last component.
pub fn parent_of(s: &str) -> (r: Option<String>)
    ensures
        match r {
            Some(p) => parent(s@) == Some(p@),
            None => parent(s@) is None,
        },
{
    let ps = text::split_char(s, '/');
    let n = trimmed_len(&ps);
    let h = head_of(s);
    if n == 0 {
        assert(trim_back(pieces(s@)).len() == 0);
        let hv = text::chars_of(h.as_str());
        if hv.len() == 1 && hv[0] == '.' {
            return Some(String::new());
        }
        assert(head(s@).len() > 0 ==> is_absolute(s@));
        return None;
    }
    let body = copy_pieces(&ps, 0, n - 1);
    assert(text::views(body@) =~= trim_back(pieces(s@)).drop_last());
    let m = trimmed_len(&body);
    if m == 0 {
        return Some(h);
    }
    let kept = copy_pieces(&body, 0, m);
    assert(text::views(kept@) =~= text::views(body@).take(m as int));
    Some(slash_join(&kept))
}

/// The last component, unless it is a root or a dot entry.
pub fn file_name_of(s: &str) -> (r: Option<String>)
    ensures
        match r {
            Some(p) => file_name(s@) == Some(p@),
            None => file_name(s@) is None,
        },
{
    let ps = text::split_char(s, '/');
    let n = trimmed_len(&ps);
    if n == 0 {
        assert(trim_back(pieces(s@)).len() == 0);
        return None;
    }
    assert(trim_back(pieces(s@)).last() == ps@[n - 1]@);
    let last = ps[n - 1].clone();
    let lv = text::chars_of(last.as_str());
    if lv.len() == 2 && lv[0] == '.' && lv[1] == '.' {
        assert(last@ =~= seq!['.', '.']);
        return None;
    }
    assert(last@ != seq!['.', '.']);
    Some(last)
}

} // verus!
