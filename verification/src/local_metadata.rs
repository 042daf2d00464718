//! Extended attributes and access lists, as they are recorded and as they are restored.
use vstd::prelude::*;

use crate::text;

verus! {

// ---------------------------------------------------------------------------
// Extended attributes
// ---------------------------------------------------------------------------

/// An attribute with its value.
#[derive(Debug)]
pub struct Xattr {
    pub name: String,
    pub value: Vec<u8>,
}

/// The bytes that a text stands for in the standard alphabet of Base64 with padding, if
/// it is valid, as `base64` decodes it.
pub uninterp spec fn base64_bytes(s: Seq<char>) -> Option<Seq<u8>>;

/// Trusted: `base64::Engine::decode` of the engine `STANDARD`. Whether a text can be
/// decoded, and to which bytes, depends on the text alone.
#[verifier::external_body]
fn decode_base64(s: &str) -> (r: Option<Vec<u8>>)
    ensures
        match r {
            Some(v) => base64_bytes(s@) == Some(v@),
            None => base64_bytes(s@) is None,
        },
{
    base64::Engine::decode(&base64::engine::general_purpose::STANDARD, s).ok()
}

/// The name and the encoded value in each line that has an equals sign, in order.
pub open spec fn name_values(lines: Seq<Seq<char>>) -> Seq<(Seq<char>, Seq<char>)>
    decreases lines.len(),
{
    if lines.len() == 0 {
        Seq::empty()
    } else {
        match text::cut(lines.last(), '=') {
            Some(pair) => name_values(lines.drop_last()).push(pair),
            None => name_values(lines.drop_last()),
        }
    }
}

pub open spec fn pair_views(v: Seq<(String, String)>) -> Seq<(Seq<char>, Seq<char>)> {
    v.map_values(|p: (String, String)| (p.0@, p.1@))
}

/// The names and encoded values of recorded attributes.
pub fn xattr_lines(recorded: &str) -> (out: Vec<(String, String)>)
    ensures
        pair_views(out@) == name_values(text::lines(recorded@)),
{
    let lines = text::lines_of(recorded);
    let ghost all = text::lines(recorded@);
    let mut out: Vec<(String, String)> = Vec::new();
    let mut i: usize = 0;
    assert(all.take(0) =~= Seq::empty());
    assert(pair_views(out@) =~= Seq::empty());
    while i < lines.len()
        invariant
            i <= lines@.len(),
            all == text::views(lines@),
            pair_views(out@) == name_values(all.take(i as int)),
        decreases lines@.len() - i,
    {
        assert(all.take(i + 1).drop_last() =~= all.take(i as int));
        assert(all.take(i + 1).last() == lines@[i as int]@);
        let ghost earlier = pair_views(out@);
        match text::split_once(lines[i].as_str(), '=') {
            Some(pair) => {
                let ghost added = (pair.0@, pair.1@);
                out.push(pair);
                assert(pair_views(out@) =~= earlier.push(added));
            },
            None => {},
        }
        i += 1;
    }
    assert(all.take(i as int) =~= all);
    out
}

/// The attributes whose value could be decoded, in order.
pub open spec fn decoded_only(
    pairs: Seq<(Seq<char>, Option<Seq<u8>>)>,
) -> Seq<(Seq<char>, Seq<u8>)>
    decreases pairs.len(),
{
    if pairs.len() == 0 {
        Seq::empty()
    } else {
        match pairs.last().1 {
            Some(value) => decoded_only(pairs.drop_last()).push((pairs.last().0, value)),
            None => decoded_only(pairs.drop_last()),
        }
    }
}

pub open spec fn xattr_views(v: Seq<Xattr>) -> Seq<(Seq<char>, Seq<u8>)> {
    v.map_values(|x: Xattr| (x.name@, x.value@))
}

pub open spec fn bytes_view(v: Option<Vec<u8>>) -> Option<Seq<u8>> {
    match v {
        Some(b) => Some(b@),
        None => None,
    }
}

pub open spec fn decoded_views(v: Seq<(String, Option<Vec<u8>>)>) -> Seq<
    (Seq<char>, Option<Seq<u8>>),
> {
    v.map_values(|p: (String, Option<Vec<u8>>)| (p.0@, bytes_view(p.1)))
}

/// Keeps the attributes whose value could be decoded.
pub fn keep_decoded(pairs: Vec<(String, Option<Vec<u8>>)>) -> (out: Vec<Xattr>)
    ensures
        xattr_views(out@) == decoded_only(decoded_views(pairs@)),
{
    let ghost all = pairs@;
    let mut out: Vec<Xattr> = Vec::new();
    assert(decoded_views(all).take(0) =~= Seq::empty());
    assert(xattr_views(out@) =~= Seq::empty());
    for pair in it: pairs
        invariant
            it.seq() == all,
            it.index() <= all.len(),
            xattr_views(out@) == decoded_only(decoded_views(all).take(it.index() as int)),
    {
        let ghost done = it.index() as int;
        let ghost views = decoded_views(all);
        assert(views.take(done + 1).drop_last() =~= views.take(done));
        assert(views.take(done + 1).last() == (pair.0@, bytes_view(pair.1)));
        let ghost earlier = xattr_views(out@);
        let (name, value) = pair;
        match value {
            Some(value) => {
                let ghost added = (name@, value@);
                out.push(Xattr { name, value });
                assert(xattr_views(out@) =~= earlier.push(added));
            },
            None => {},
        }
    }
    assert(decoded_views(all).take(all.len() as int) =~= decoded_views(all));
    out
}

/// The recorded attributes: one in each line, its name, an equals sign and its value in
/// Base64. A line without an equals sign and a value that cannot be decoded are passed
/// over.
pub open spec fn recorded_xattrs(recorded: Seq<char>) -> Seq<(Seq<char>, Seq<u8>)> {
    decoded_only(
        name_values(text::lines(recorded)).map_values(
            |p: (Seq<char>, Seq<char>)| (p.0, base64_bytes(p.1)),
        ),
    )
}

/// The attributes that are to be set.
pub fn restore_xattrs(xattrs: &Option<String>) -> (out: Vec<Xattr>)
    ensures
        match *xattrs {
            Some(s) => xattr_views(out@) == recorded_xattrs(s@),
            None => out@.len() == 0,
        },
{
    let recorded = match xattrs {
        Some(s) => s,
        None => {
            return Vec::new();
        },
    };
    let lines = xattr_lines(recorded.as_str());
    let ghost pairs = name_values(text::lines(recorded@));
    let mut decoded: Vec<(String, Option<Vec<u8>>)> = Vec::new();
    let mut i: usize = 0;
    while i < lines.len()
        invariant
            i <= lines@.len(),
            pairs == pair_views(lines@),
            decoded@.len() == i,
            forall|k: int|
                0 <= k < i ==> (#[trigger] decoded@[k]).0@ == pairs[k].0 && bytes_view(
                    decoded@[k].1,
                ) == base64_bytes(pairs[k].1),
        decreases lines@.len() - i,
    {
        assert(pairs[i as int] == (lines@[i as int].0@, lines@[i as int].1@));
        decoded.push((lines[i].0.clone(), decode_base64(lines[i].1.as_str())));
        i += 1;
    }
    assert(decoded_views(decoded@) =~= pairs.map_values(
        |p: (Seq<char>, Seq<char>)| (p.0, base64_bytes(p.1)),
    ));
    keep_decoded(decoded)
}

// ---------------------------------------------------------------------------
// Access lists
// ---------------------------------------------------------------------------

/// The lines of an optional text.
pub open spec fn optional_lines(s: Option<String>) -> Seq<Seq<char>> {
    match s {
        Some(t) => text::lines(t@),
        None => Seq::empty(),
    }
}

/// The lines of the recorded access list and of the default list, in this order.
pub fn acl_lines(access_acl: &Option<String>, default_acl: &Option<String>) -> (out: Vec<String>)
    ensures
        text::views(out@) == optional_lines(*access_acl) + optional_lines(*default_acl),
{
    let mut out: Vec<String> = match access_acl {
        Some(s) => text::lines_of(s.as_str()),
        None => Vec::new(),
    };
    assert(text::views(out@) =~= optional_lines(*access_acl));
    let ghost first = out@;
    match default_acl {
        Some(s) => {
            let mut more = text::lines_of(s.as_str());
            let ghost second = more@;
            out.append(&mut more);
            assert(text::views(out@) =~= text::views(first) + text::views(second));
        },
        None => {
            assert(text::views(out@) =~= optional_lines(*access_acl) + optional_lines(
                *default_acl,
            ));
        },
    }
    out
}

/// The lines that were found valid, in order.
pub open spec fn kept(lines: Seq<Seq<char>>, valid: Seq<bool>) -> Seq<Seq<char>>
    decreases lines.len(),
{
    if lines.len() == 0 {
        Seq::empty()
    } else if valid[lines.len() - 1] {
        kept(lines.drop_last(), valid).push(lines.last())
    } else {
        kept(lines.drop_last(), valid)
    }
}

/// The lines of the recorded access lists that can be read as entries. Where there is
/// none, the access list is left alone.
pub fn restore_acl(lines: Vec<String>, valid: &Vec<bool>) -> (out: Vec<String>)
    requires
        valid@.len() == lines@.len(),
    ensures
        text::views(out@) == kept(text::views(lines@), valid@),
{
    let ghost all = text::views(lines@);
    let mut out: Vec<String> = Vec::new();
    let mut i: usize = 0;
    assert(all.take(0) =~= Seq::empty());
    assert(text::views(out@) =~= Seq::empty());
    while i < lines.len()
        invariant
            i <= lines@.len(),
            valid@.len() == lines@.len(),
            all == text::views(lines@),
            text::views(out@) == kept(all.take(i as int), valid@),
        decreases lines@.len() - i,
    {
        assert(all.take(i + 1).drop_last() =~= all.take(i as int));
        let ghost earlier = text::views(out@);
        if valid[i] {
            out.push(lines[i].clone());
            assert(text::views(out@) =~= earlier.push(all[i as int]));
        }
        i += 1;
    }
    assert(all.take(i as int) =~= all);
    out
}

/// The entries that are set for the recorded access list and default list. `reads` says of
/// each line of the two, in order, whether it reads as an entry; the others are passed over.
pub fn restore_acl_of(
    access_acl: &Option<String>,
    default_acl: &Option<String>,
    reads: &Vec<bool>,
) -> (out: Vec<String>)
    requires
        reads@.len() == (optional_lines(*access_acl) + optional_lines(*default_acl)).len(),
    ensures
        text::views(out@) == kept(
            optional_lines(*access_acl) + optional_lines(*default_acl),
            reads@,
        ),
{
    let lines = acl_lines(access_acl, default_acl);
    assert(text::views(lines@).len() == lines@.len());
    restore_acl(lines, reads)
}

/// Attributes are recorded line by line: the first equals sign of a line parts its name from
/// its value, and a line without one says nothing.
pub proof fn law_lines_name_values(
    a: Seq<Seq<char>>,
    b: Seq<Seq<char>>,
    name: Seq<char>,
    value: Seq<char>,
)
    ensures
        name_values(a + b) == name_values(a) + name_values(b),
        !name.contains('=') ==> name_values(seq![name.push('=') + value]) == seq![(name, value)],
        !name.contains('=') ==> name_values(seq![name]).len() == 0,
    decreases b.len(),
{
    reveal_with_fuel(name_values, 2);
    let line = name.push('=') + value;
    assert(seq![line].drop_last() =~= Seq::empty());
    assert(seq![name].drop_last() =~= Seq::empty());
    text::law_texts_are_cut_at_the_first_separator(line, '=');
    text::law_texts_are_cut_at_the_first_separator(name, '=');
    if !name.contains('=') {
        assert(line[name.len() as int] == '=');
        let p = text::cut(line, '=')->0;
        let whole = p.0.push('=') + p.1;
        if p.0.len() > name.len() {
            assert(p.0[name.len() as int] == whole[name.len() as int]);
            assert(p.0.contains('='));
        }
        if p.0.len() < name.len() {
            assert(whole[p.0.len() as int] == '=');
            assert(name[p.0.len() as int] == line[p.0.len() as int]);
            assert(name.contains('='));
        }
        assert forall|i: int| 0 <= i < name.len() implies p.0[i] == name[i] by {
            assert(whole[i] == line[i]);
        }
        assert(p.0 =~= name);
        assert forall|i: int| 0 <= i < value.len() implies p.1[i] == value[i] by {
            assert(whole[name.len() + 1 + i] == line[name.len() + 1 + i]);
        }
        assert(p.1 =~= value);
        assert(name_values(seq![line]) =~= seq![(name, value)]);
    }
    if b.len() == 0 {
        assert(a + b =~= a);
        assert(name_values(a + b) =~= name_values(a) + name_values(b));
    } else {
        law_lines_name_values(a, b.drop_last(), name, value);
        assert((a + b).drop_last() =~= a + b.drop_last());
        assert((a + b).last() == b.last());
        assert(name_values(a + b) =~= name_values(a) + name_values(b));
    }
}

/// What could be decoded is kept with its name and in its order, and what could not is left
/// out.
pub proof fn law_decoded_values_are_kept(
    a: Seq<(Seq<char>, Option<Seq<u8>>)>,
    b: Seq<(Seq<char>, Option<Seq<u8>>)>,
    name: Seq<char>,
    value: Seq<u8>,
)
    ensures
        decoded_only(a + b) == decoded_only(a) + decoded_only(b),
        decoded_only(seq![(name, Some(value))]) == seq![(name, value)],
        decoded_only(seq![(name, None::<Seq<u8>>)]).len() == 0,
    decreases b.len(),
{
    reveal_with_fuel(decoded_only, 2);
    let good = seq![(name, Some(value))];
    assert(good.drop_last() =~= Seq::empty());
    assert(seq![(name, None::<Seq<u8>>)].drop_last() =~= Seq::empty());
    assert(decoded_only(good) =~= seq![(name, value)]);
    if b.len() == 0 {
        assert(a + b =~= a);
        assert(decoded_only(a + b) =~= decoded_only(a) + decoded_only(b));
    } else {
        law_decoded_values_are_kept(a, b.drop_last(), name, value);
        assert((a + b).drop_last() =~= a + b.drop_last());
        assert((a + b).last() == b.last());
        assert(decoded_only(a + b) =~= decoded_only(a) + decoded_only(b));
    }
}

/// The lines that were found valid are all kept and no other is.
pub proof fn law_valid_lines_are_kept(lines: Seq<Seq<char>>, valid: Seq<bool>)
    requires
        lines.len() <= valid.len(),
    ensures
        forall|i: int|
            0 <= i < lines.len() && valid[i] ==> kept(lines, valid).contains(#[trigger] lines[i]),
        forall|l: Seq<char>| #[trigger]
            kept(lines, valid).contains(l) ==> exists|i: int|
                0 <= i < lines.len() && #[trigger] lines[i] == l && valid[i],
        kept(lines, valid).len() == valid.take(lines.len() as int).filter(|v: bool| v).len(),
    decreases lines.len(),
{
    let own = |v: bool| v;
    let n = lines.len() as int;
    reveal(Seq::filter);
    if n == 0 {
        assert(valid.take(0).filter(own).len() == 0);
    } else {
        let front = lines.drop_last();
        law_valid_lines_are_kept(front, valid);
        assert(valid.take(n).drop_last() =~= valid.take(n - 1));
        assert(valid.take(n).last() == valid[n - 1]);
        let earlier = kept(front, valid);
        let now = kept(lines, valid);
        assert forall|i: int| 0 <= i < n && valid[i] implies now.contains(#[trigger] lines[i]) by {
            if i < n - 1 {
                assert(front[i] == lines[i]);
                assert(earlier.contains(front[i]));
                let k = choose|k: int| 0 <= k < earlier.len() && earlier[k] == front[i];
                assert(now[k] == lines[i]);
            } else {
                assert(now[now.len() - 1] == lines[i]);
            }
        }
        assert forall|l: Seq<char>| #[trigger] now.contains(l) implies exists|i: int|
            0 <= i < n && #[trigger] lines[i] == l && valid[i] by {
            if earlier.contains(l) {
                let i = choose|i: int| 0 <= i < front.len() && #[trigger] front[i] == l && valid[i];
                assert(lines[i] == l);
            } else {
                let k = choose|k: int| 0 <= k < now.len() && now[k] == l;
                if k < earlier.len() {
                    assert(earlier[k] == l);
                }
                assert(lines[n - 1] == l);
            }
        }
    }
}

} // verus!
