//! Text as sequences of characters: the string operations that the rest of the
//! library is built on, each stated over `Seq<char>`.
use vstd::prelude::*;

verus! {

/// Trusted: `String::push` appends one character.
pub assume_specification[ String::push ](s: &mut String, c: char)
    ensures
        final(s)@ == old(s)@.push(c),
;

/// Trusted: `==` on `str` compares the characters.
pub assume_specification[ <str as PartialEq>::eq ](a: &str, b: &str) -> (r: bool)
    ensures
        r == (a@ == b@),
;

// ---------------------------------------------------------------------------
// Conversions
// ---------------------------------------------------------------------------

/// The characters of a string.
pub fn chars_of(s: &str) -> (out: Vec<char>)
    ensures
        out@ == s@,
{
    let mut out: Vec<char> = Vec::new();
    for c in it: s.chars()
        invariant
            it.seq() == s@,
            out@ =~= s@.take(it.index() as int),
    {
        out.push(c);
    }
    out
}

/// The string made of the given characters.
pub fn string_of(v: &[char]) -> (out: String)
    ensures
        out@ == v@,
{
    let mut out = String::new();
    let mut i: usize = 0;
    while i < v.len()
        invariant
            i <= v@.len(),
            out@ =~= v@.take(i as int),
        decreases v@.len() - i,
    {
        out.push(v[i]);
        i += 1;
    }
    out
}

/// Appends a slice of characters to a vector of characters.
pub fn push_all(v: &mut Vec<char>, tail: &[char])
    ensures
        final(v)@ == old(v)@ + tail@,
{
    let ghost start = v@;
    let mut i: usize = 0;
    while i < tail.len()
        invariant
            i <= tail@.len(),
            v@ =~= start + tail@.take(i as int),
        decreases tail@.len() - i,
    {
        v.push(tail[i]);
        i += 1;
    }
}

/// The part of a slice of characters between two positions.
pub fn slice_of(v: &[char], from: usize, to: usize) -> (out: Vec<char>)
    requires
        from <= to <= v@.len(),
    ensures
        out@ == v@.subrange(from as int, to as int),
{
    let mut out: Vec<char> = Vec::new();
    let mut i: usize = from;
    while i < to
        invariant
            from <= i <= to <= v@.len(),
            out@ =~= v@.subrange(from as int, i as int),
        decreases to - i,
    {
        out.push(v[i]);
        i += 1;
    }
    out
}

/// Whether two strings hold the same characters.
pub fn same(a: &str, b: &str) -> (r: bool)
    ensures
        r == (a@ == b@),
{
    a.eq(b)
}

/// A copy of a string slice.
pub fn copy_of(s: &str) -> (out: String)
    ensures
        out@ == s@,
{
    s.to_owned()
}

/// Two strings put one after the other.
pub fn concat(a: &str, b: &str) -> (out: String)
    ensures
        out@ == a@ + b@,
{
    let mut out = a.to_owned();
    out.append(b);
    out
}

// ---------------------------------------------------------------------------
// Searching
// ---------------------------------------------------------------------------

/// Whether `part` stands at position `at` of `s`.
pub open spec fn occurs_at(s: Seq<char>, part: Seq<char>, at: int) -> bool {
    0 <= at && at + part.len() <= s.len() && s.subrange(at, at + part.len()) == part
}

/// Whether `part` stands somewhere in `s`.
pub open spec fn contains(s: Seq<char>, part: Seq<char>) -> bool {
    exists|at: int| occurs_at(s, part, at)
}

/// Whether `part` stands at position `at`.
pub fn matches_at(s: &[char], part: &[char], at: usize) -> (r: bool)
    requires
        at + part@.len() <= s@.len(),
    ensures
        r == occurs_at(s@, part@, at as int),
{
    let limit: usize = s.len();
    let mut i: usize = 0;
    while i < part.len()
        invariant
            i <= part@.len(),
            limit == s@.len(),
            at + part@.len() <= s@.len(),
            forall|k: int| 0 <= k < i ==> s@[at + k] == part@[k],
        decreases part@.len() - i,
    {
        if s[at + i] != part[i] {
            assert(s@.subrange(at as int, at + part@.len())[i as int] != part@[i as int]);
            return false;
        }
        i += 1;
    }
    assert(s@.subrange(at as int, at + part@.len()) =~= part@);
    true
}

/// Whether `s` holds `part`.
pub fn contains_text(s: &str, part: &str) -> (r: bool)
    ensures
        r == contains(s@, part@),
{
    let sv = chars_of(s);
    let pv = chars_of(part);
    if pv.len() > sv.len() {
        assert(!contains(s@, part@));
        return false;
    }
    let last: usize = sv.len() - pv.len();
    let mut at: usize = 0;
    while at < last
        invariant
            sv@ == s@,
            pv@ == part@,
            last == sv@.len() - pv@.len(),
            at <= last,
            forall|k: int| 0 <= k < at ==> !occurs_at(s@, part@, k),
        decreases last - at,
    {
        if matches_at(&sv, &pv, at) {
            return true;
        }
        at += 1;
    }
    matches_at(&sv, &pv, last)
}

/// Whether `s` begins with `prefix`.
pub fn starts_with(s: &str, prefix: &str) -> (r: bool)
    ensures
        r == prefix@.is_prefix_of(s@),
{
    let sv = chars_of(s);
    let pv = chars_of(prefix);
    if pv.len() > sv.len() {
        return false;
    }
    let r = matches_at(&sv, &pv, 0);
    assert(s@.take(prefix@.len() as int) =~= s@.subrange(0, prefix@.len() as int));
    r
}

/// Whether `s` ends with `suffix`.
pub fn ends_with(s: &str, suffix: &str) -> (r: bool)
    ensures
        r == suffix@.is_suffix_of(s@),
{
    let sv = chars_of(s);
    let pv = chars_of(suffix);
    if pv.len() > sv.len() {
        return false;
    }
    let r = matches_at(&sv, &pv, sv.len() - pv.len());
    assert(s@.subrange(s@.len() - suffix@.len(), s@.len() as int) =~= s@.skip(
        s@.len() - suffix@.len(),
    ));
    r
}

/// What follows `prefix` in `s`, when `s` begins with it.
pub fn strip_prefix(s: &str, prefix: &str) -> (r: Option<String>)
    ensures
        match r {
            Some(rest) => prefix@.is_prefix_of(s@) && rest@ == s@.skip(prefix@.len() as int),
            None => !prefix@.is_prefix_of(s@),
        },
{
    if !starts_with(s, prefix) {
        return None;
    }
    let sv = chars_of(s);
    let pv = chars_of(prefix);
    let rest = slice_of(&sv, pv.len(), sv.len());
    assert(rest@ =~= s@.skip(prefix@.len() as int));
    Some(string_of(&rest))
}

// ---------------------------------------------------------------------------
// Replacing
// ---------------------------------------------------------------------------

/// `s` with each `from` replaced by the characters `to`.
pub open spec fn replace(s: Seq<char>, from: char, to: Seq<char>) -> Seq<char>
    decreases s.len(),
{
    if s.len() == 0 {
        Seq::empty()
    } else {
        replace(s.drop_last(), from, to) + (if s.last() == from {
            to
        } else {
            seq![s.last()]
        })
    }
}

/// Characters are replaced one by one: every `from` by `to`, and no other.
pub proof fn law_replace_by_character(
    a: Seq<char>,
    b: Seq<char>,
    from: char,
    to: Seq<char>,
    c: char,
)
    ensures
        replace(a + b, from, to) == replace(a, from, to) + replace(b, from, to),
        replace(seq![from], from, to) == to,
        c != from ==> replace(seq![c], from, to) == seq![c],
    decreases b.len(),
{
    reveal_with_fuel(replace, 2);
    assert(seq![from].drop_last() =~= Seq::empty());
    assert(seq![c].drop_last() =~= Seq::empty());
    assert(replace(seq![from], from, to) =~= to);
    assert(c != from ==> replace(seq![c], from, to) =~= seq![c]);
    if b.len() == 0 {
        assert(a + b =~= a);
        assert(replace(a, from, to) + replace(b, from, to) =~= replace(a, from, to));
    } else {
        law_replace_by_character(a, b.drop_last(), from, to, c);
        assert((a + b).drop_last() =~= a + b.drop_last());
        assert((a + b).last() == b.last());
        assert(replace(a + b, from, to) =~= replace(a, from, to) + replace(b, from, to));
    }
}

/// Replaces each `from` in `s` by `to`.
pub fn replace_char(s: &str, from: char, to: &str) -> (out: String)
    ensures
        out@ == replace(s@, from, to@),
{
    let sv = chars_of(s);
    let tv = chars_of(to);
    let mut out: Vec<char> = Vec::new();
    let mut i: usize = 0;
    while i < sv.len()
        invariant
            i <= sv@.len(),
            sv@ == s@,
            tv@ == to@,
            out@ == replace(s@.take(i as int), from, to@),
        decreases sv@.len() - i,
    {
        assert(s@.take(i + 1).drop_last() =~= s@.take(i as int));
        if sv[i] == from {
            push_all(&mut out, &tv);
        } else {
            out.push(sv[i]);
            assert(out@ =~= replace(s@.take(i as int), from, to@) + seq![s@[i as int]]);
        }
        i += 1;
    }
    assert(s@.take(i as int) =~= s@);
    string_of(&out)
}

/// What replaces a character does not bring in another one that was not there.
pub proof fn lemma_replace_keeps_out(s: Seq<char>, from: char, to: Seq<char>, c: char)
    requires
        !to.contains(c),
        c == from || !s.contains(c),
    ensures
        !replace(s, from, to).contains(c),
    decreases s.len(),
{
    if s.len() > 0 {
        assert forall|i: int| 0 <= i < s.drop_last().len() && c != from implies s.drop_last()[i]
            != c by {
            assert(s.contains(s[i]));
        }
        lemma_replace_keeps_out(s.drop_last(), from, to, c);
        let tail = if s.last() == from {
            to
        } else {
            seq![s.last()]
        };
        let front = replace(s.drop_last(), from, to);
        assert(s.contains(s[s.len() - 1]));
        assert forall|i: int| 0 <= i < (front + tail).len() implies (front + tail)[i] != c by {
            if i < front.len() {
                assert(front.contains(front[i]));
            } else {
                assert(tail.contains(tail[i - front.len()]));
            }
        }
    }
}

/// `s` with each backslash turned into a slash.
pub open spec fn forward_slashes(s: Seq<char>) -> Seq<char> {
    s.map_values(|c: char| if c == '\\' { '/' } else { c })
}

/// Turns each backslash of `s` into a slash.
pub fn to_forward_slashes(s: &str) -> (out: String)
    ensures
        out@ == forward_slashes(s@),
{
    let sv = chars_of(s);
    let mut out: Vec<char> = Vec::new();
    let mut i: usize = 0;
    while i < sv.len()
        invariant
            i <= sv@.len(),
            sv@ == s@,
            out@ =~= forward_slashes(s@).take(i as int),
        decreases sv@.len() - i,
    {
        if sv[i] == '\\' {
            out.push('/');
        } else {
            out.push(sv[i]);
        }
        i += 1;
    }
    assert(out@ =~= forward_slashes(s@));
    string_of(&out)
}

/// A text that holds no backslash is left as it is.
pub proof fn lemma_forward_slashes_id(s: Seq<char>)
    requires
        !s.contains('\\'),
    ensures
        forward_slashes(s) == s,
{
    assert forall|i: int| 0 <= i < s.len() implies forward_slashes(s)[i] == s[i] by {
        assert(s.contains(s[i]));
    }
    assert(forward_slashes(s) =~= s);
}

/// Turning backslashes into slashes keeps the length and every other character, leaves no
/// backslash behind, and changes nothing where there is none.
pub proof fn law_forward_slashes(s: Seq<char>)
    ensures
        forward_slashes(s).len() == s.len(),
        !forward_slashes(s).contains('\\'),
        forall|i: int|
            0 <= i < s.len() && s[i] != '\\' ==> #[trigger] forward_slashes(s)[i] == s[i],
        forall|i: int|
            0 <= i < s.len() && s[i] == '\\' ==> #[trigger] forward_slashes(s)[i] == '/',
        !s.contains('\\') ==> forward_slashes(s) == s,
{
    if !s.contains('\\') {
        lemma_forward_slashes_id(s);
    }
}

/// An ASCII lower-case letter as its upper-case letter, any other character as it is.
pub open spec fn upper_char(c: char) -> char {
    if 'a' <= c <= 'z' {
        (c as u32 - 32) as char
    } else {
        c
    }
}

/// `s` with its ASCII lower-case letters in upper case.
pub open spec fn ascii_upper(s: Seq<char>) -> Seq<char> {
    s.map_values(|c: char| upper_char(c))
}

/// Puts the ASCII letters of `s` in upper case.
pub fn to_ascii_upper(s: &str) -> (out: String)
    ensures
        out@ == ascii_upper(s@),
{
    let sv = chars_of(s);
    let mut out: Vec<char> = Vec::new();
    let mut i: usize = 0;
    while i < sv.len()
        invariant
            i <= sv@.len(),
            sv@ == s@,
            out@ =~= ascii_upper(s@).take(i as int),
        decreases sv@.len() - i,
    {
        let c = sv[i];
        if 'a' <= c && c <= 'z' {
            let code: u8 = c as u8;
            let up: u8 = code - 32;
            out.push(up as char);
        } else {
            out.push(c);
        }
        i += 1;
    }
    assert(out@ =~= ascii_upper(s@));
    string_of(&out)
}

/// `s` with its ASCII upper-case letters in lower case.
pub open spec fn ascii_lower(s: Seq<char>) -> Seq<char> {
    s.map_values(
        |c: char|
            if 'A' <= c <= 'Z' {
                (c as u32 + 32) as char
            } else {
                c
            },
    )
}

/// Whether all characters are ASCII characters.
pub open spec fn is_ascii_text(s: Seq<char>) -> bool {
    forall|i: int| 0 <= i < s.len() ==> (#[trigger] s[i]) as u32 <= 127
}

/// `s` in upper case, by the rules of Unicode.
pub uninterp spec fn upper_text(s: Seq<char>) -> Seq<char>;

/// `s` in lower case, by the rules of Unicode.
pub uninterp spec fn lower_text(s: Seq<char>) -> Seq<char>;

/// Trusted: `str::to_uppercase`. What it makes of a text is left to Unicode, except that
/// in ASCII text exactly the letters change.
#[verifier::external_body]
pub(crate) fn to_upper_text(s: &str) -> (out: String)
    ensures
        out@ == upper_text(s@),
        is_ascii_text(s@) ==> out@ == ascii_upper(s@),
{
    s.to_uppercase()
}

/// Trusted: `str::to_lowercase`. What it makes of a text is left to Unicode, except that
/// in ASCII text exactly the letters change.
#[verifier::external_body]
pub(crate) fn to_lower_text(s: &str) -> (out: String)
    ensures
        out@ == lower_text(s@),
        is_ascii_text(s@) ==> out@ == ascii_lower(s@),
{
    s.to_lowercase()
}

// ---------------------------------------------------------------------------
// Blanks
// ---------------------------------------------------------------------------

/// Whether a character is white space, as Unicode has it.
pub open spec fn is_blank(c: char) -> bool {
    let n = c as u32;
    ||| 0x9 <= n <= 0xd
    ||| n == 0x20
    ||| n == 0x85
    ||| n == 0xa0
    ||| n == 0x1680
    ||| 0x2000 <= n <= 0x200a
    ||| n == 0x2028
    ||| n == 0x2029
    ||| n == 0x202f
    ||| n == 0x205f
    ||| n == 0x3000
}

pub fn blank(c: char) -> (r: bool)
    ensures
        r == is_blank(c),
{
    let n: u32 = c as u32;
    (0x9 <= n && n <= 0xd) || n == 0x20 || n == 0x85 || n == 0xa0 || n == 0x1680 || (0x2000 <= n
        && n <= 0x200a) || n == 0x2028 || n == 0x2029 || n == 0x202f || n == 0x205f || n == 0x3000
}

/// A text without the blanks at its end.
pub open spec fn trimmed_end(s: Seq<char>) -> Seq<char>
    decreases s.len(),
{
    if s.len() > 0 && is_blank(s.last()) {
        trimmed_end(s.drop_last())
    } else {
        s
    }
}

/// A text without the blanks at its front.
pub open spec fn trimmed_start(s: Seq<char>) -> Seq<char>
    decreases s.len(),
{
    if s.len() > 0 && is_blank(s[0]) {
        trimmed_start(s.drop_first())
    } else {
        s
    }
}

/// A text without the blanks around it.
pub open spec fn trimmed(s: Seq<char>) -> Seq<char> {
    trimmed_start(trimmed_end(s))
}

/// Takes the blanks around a text away.
pub fn trim(s: &str) -> (out: String)
    ensures
        out@ == trimmed(s@),
{
    let sv = chars_of(s);
    let mut to: usize = sv.len();
    assert(s@.take(to as int) =~= s@);
    while to > 0 && blank(sv[to - 1])
        invariant
            to <= sv@.len(),
            sv@ == s@,
            trimmed_end(s@.take(to as int)) == trimmed_end(s@),
        decreases to,
    {
        assert(s@.take(to as int).drop_last() =~= s@.take(to - 1));
        to -= 1;
    }
    let ghost front = s@.take(to as int);
    let mut from: usize = 0;
    assert(front.skip(0) =~= front);
    while from < to && blank(sv[from])
        invariant
            from <= to <= sv@.len(),
            sv@ == s@,
            front == s@.take(to as int),
            trimmed_start(front.skip(from as int)) == trimmed_start(front),
        decreases to - from,
    {
        assert(front.skip(from as int).drop_first() =~= front.skip(from + 1));
        from += 1;
    }
    let kept = slice_of(&sv, from, to);
    assert(kept@ =~= front.skip(from as int));
    string_of(&kept)
}

/// Where the first blank stands, or the end of the text.
pub open spec fn word_end(s: Seq<char>) -> int
    decreases s.len(),
{
    if s.len() == 0 || is_blank(s[0]) {
        0
    } else {
        1 + word_end(s.drop_first())
    }
}

/// The first word of a text: what stands between the blanks at its front and the next
/// one. It is empty where there is none.
pub open spec fn first_word(s: Seq<char>) -> Seq<char> {
    trimmed_start(s).take(word_end(trimmed_start(s)))
}

/// The first word of a text.
pub fn first_word_of(s: &str) -> (out: String)
    ensures
        out@ == first_word(s@),
{
    let sv = chars_of(s);
    let mut from: usize = 0;
    assert(s@.skip(0) =~= s@);
    while from < sv.len() && blank(sv[from])
        invariant
            from <= sv@.len(),
            sv@ == s@,
            trimmed_start(s@.skip(from as int)) == trimmed_start(s@),
        decreases sv@.len() - from,
    {
        assert(s@.skip(from as int).drop_first() =~= s@.skip(from + 1));
        from += 1;
    }
    let ghost rest = s@.skip(from as int);
    let mut to: usize = from;
    assert(rest.skip(0) =~= rest);
    while to < sv.len() && !blank(sv[to])
        invariant
            from <= to <= sv@.len(),
            sv@ == s@,
            rest == s@.skip(from as int),
            to - from + word_end(rest.skip(to - from)) == word_end(rest),
        decreases sv@.len() - to,
    {
        assert(rest.skip(to - from).drop_first() =~= rest.skip(to - from + 1));
        assert(rest.skip(to - from)[0] == sv@[to as int]);
        to += 1;
    }
    let word = slice_of(&sv, from, to);
    assert(to < sv@.len() ==> rest.skip(to - from)[0] == sv@[to as int]);
    assert(word@ =~= rest.take(to - from));
    string_of(&word)
}

// ---------------------------------------------------------------------------
// Splitting and joining
// ---------------------------------------------------------------------------

/// The pieces of `s` between the separators; a text without one is a single piece.
pub open spec fn split(s: Seq<char>, sep: char) -> Seq<Seq<char>>
    decreases s.len(),
{
    if s.len() == 0 {
        seq![Seq::empty()]
    } else {
        let front = split(s.drop_last(), sep);
        if s.last() == sep {
            front.push(Seq::empty())
        } else {
            front.update(front.len() - 1, front.last().push(s.last()))
        }
    }
}

/// The views of a list of strings.
pub open spec fn views(v: Seq<String>) -> Seq<Seq<char>> {
    v.map_values(|s: String| s@)
}

/// There is always at least one piece.
pub proof fn lemma_split_nonempty(s: Seq<char>, sep: char)
    ensures
        split(s, sep).len() >= 1,
    decreases s.len(),
{
    if s.len() > 0 {
        lemma_split_nonempty(s.drop_last(), sep);
    }
}

/// Splits `s` at each separator.
pub fn split_char(s: &str, sep: char) -> (out: Vec<String>)
    ensures
        views(out@) == split(s@, sep),
        out@.len() >= 1,
{
    let sv = chars_of(s);
    let mut out: Vec<String> = Vec::new();
    let mut piece: Vec<char> = Vec::new();
    let mut i: usize = 0;
    assert(s@.take(0) =~= Seq::<char>::empty());
    assert(views(out@).push(piece@) =~= split(s@.take(0), sep));
    while i < sv.len()
        invariant
            i <= sv@.len(),
            sv@ == s@,
            views(out@).push(piece@) == split(s@.take(i as int), sep),
        decreases sv@.len() - i,
    {
        let ghost before = split(s@.take(i as int), sep);
        assert(s@.take(i + 1).drop_last() =~= s@.take(i as int));
        if sv[i] == sep {
            let done = string_of(&piece);
            let ghost old_out = out@;
            out.push(done);
            piece = Vec::new();
            assert(views(out@) =~= views(old_out).push(done@));
            assert(views(out@).push(piece@) =~= split(s@.take(i + 1), sep));
        } else {
            let ghost old_piece = piece@;
            piece.push(sv[i]);
            assert(before.last() == old_piece);
            assert(views(out@).push(piece@) =~= split(s@.take(i + 1), sep));
        }
        i += 1;
    }
    assert(s@.take(i as int) =~= s@);
    let ghost old_out = out@;
    let done = string_of(&piece);
    out.push(done);
    assert(views(out@) =~= views(old_out).push(done@));
    out
}

/// The first place of a character.
pub open spec fn first_at(s: Seq<char>, c: char, from: int) -> Option<int>
    decreases s.len() - from,
{
    if from < 0 || from >= s.len() {
        None
    } else if s[from] == c {
        Some(from)
    } else {
        first_at(s, c, from + 1)
    }
}

/// What stands in front of the first separator, and what stands behind it.
pub open spec fn cut(s: Seq<char>, sep: char) -> Option<(Seq<char>, Seq<char>)> {
    match first_at(s, sep, 0) {
        Some(i) => Some((s.take(i), s.skip(i + 1))),
        None => None,
    }
}

pub fn split_once(s: &str, sep: char) -> (r: Option<(String, String)>)
    ensures
        match r {
            Some((a, b)) => cut(s@, sep) == Some((a@, b@)),
            None => cut(s@, sep) is None,
        },
{
    let sv = chars_of(s);
    let mut i: usize = 0;
    while i < sv.len() && sv[i] != sep
        invariant
            i <= sv@.len(),
            sv@ == s@,
            first_at(s@, sep, i as int) == first_at(s@, sep, 0),
        decreases sv@.len() - i,
    {
        i += 1;
    }
    if i >= sv.len() {
        return None;
    }
    let a = slice_of(&sv, 0, i);
    let b = slice_of(&sv, i + 1, sv.len());
    assert(a@ =~= s@.take(i as int));
    assert(b@ =~= s@.skip(i + 1));
    Some((string_of(&a), string_of(&b)))
}

/// A line without the carriage return at its end.
pub open spec fn without_return(line: Seq<char>) -> Seq<char> {
    if line.len() > 0 && line.last() == '\r' {
        line.drop_last()
    } else {
        line
    }
}

/// The lines of a text. A line ends with a line feed, which a carriage return may stand
/// in front of; the last line need not end.
pub open spec fn lines(s: Seq<char>) -> Seq<Seq<char>> {
    let pieces = split(s, '\n');
    let ended = pieces.drop_last().map_values(|l: Seq<char>| without_return(l));
    if pieces.last().len() == 0 {
        ended
    } else {
        ended.push(pieces.last())
    }
}

pub fn lines_of(s: &str) -> (out: Vec<String>)
    ensures
        views(out@) == lines(s@),
{
    let pieces = split_char(s, '\n');
    let ghost all = split(s@, '\n');
    assert(all.len() == pieces@.len());
    let last: usize = pieces.len() - 1;
    let mut out: Vec<String> = Vec::new();
    let mut i: usize = 0;
    while i < last
        invariant
            i <= last,
            last == pieces@.len() - 1,
            all == views(pieces@),
            out@.len() == i,
            forall|k: int| 0 <= k < i ==> (#[trigger] out@[k])@ == without_return(all[k]),
        decreases last - i,
    {
        let chars = chars_of(pieces[i].as_str());
        assert(all[i as int] == chars@);
        if chars.len() > 0 && chars[chars.len() - 1] == '\r' {
            let body = slice_of(&chars, 0, chars.len() - 1);
            assert(body@ =~= chars@.drop_last());
            out.push(string_of(&body));
        } else {
            out.push(string_of(&chars));
        }
        i += 1;
    }
    let ghost ended = all.drop_last().map_values(|l: Seq<char>| without_return(l));
    assert(views(out@) =~= ended);
    assert(all.last() == pieces@[last as int]@);
    if !pieces[last].as_str().is_empty() {
        out.push(pieces[last].clone());
        assert(views(out@) =~= ended.push(all.last()));
    }
    out
}

/// The pieces of `parts` with `sep` between each two.
pub open spec fn join(parts: Seq<Seq<char>>, sep: Seq<char>) -> Seq<char>
    decreases parts.len(),
{
    if parts.len() == 0 {
        Seq::empty()
    } else if parts.len() == 1 {
        parts[0]
    } else {
        join(parts.drop_last(), sep) + sep + parts.last()
    }
}

/// Joins strings with a separator between each two.
pub fn join_strings(parts: &Vec<String>, sep: &str) -> (out: String)
    ensures
        out@ == join(views(parts@), sep@),
{
    let mut out = String::new();
    let mut i: usize = 0;
    assert(views(parts@).take(0) =~= Seq::<Seq<char>>::empty());
    while i < parts.len()
        invariant
            i <= parts@.len(),
            out@ == join(views(parts@).take(i as int), sep@),
        decreases parts@.len() - i,
    {
        let ghost next = views(parts@).take(i + 1);
        assert(next.drop_last() =~= views(parts@).take(i as int));
        assert(next.last() == parts@[i as int]@);
        if i > 0 {
            out.append(sep);
        }
        let ghost mid = out@;
        out.append(parts[i].as_str());
        assert(i == 0 ==> out@ =~= join(next, sep@));
        assert(i > 0 ==> out@ =~= join(next, sep@));
        i += 1;
    }
    assert(views(parts@).take(i as int) =~= views(parts@));
    out
}

// ---------------------------------------------------------------------------
// Numbers
// ---------------------------------------------------------------------------

/// The character for one digit.
pub open spec fn digit_char(d: nat, upper: bool) -> char {
    if d < 10 {
        (48 + d) as char
    } else if upper {
        (55 + d) as char
    } else {
        (87 + d) as char
    }
}

/// The digits of `n` in the given base, most significant first, without leading zeros.
pub open spec fn digits(n: nat, base: nat, upper: bool) -> Seq<char>
    decreases n,
{
    if base < 2 || n < base {
        seq![digit_char(n, upper)]
    } else {
        proof {
            assert(n / base < n) by (nonlinear_arith)
                requires
                    n >= base,
                    base >= 2,
            ;
        }
        digits(n / base, base, upper).push(digit_char(n % base, upper))
    }
}

/// `s` with `fill` put in front until it is `width` characters long.
pub open spec fn pad_left(s: Seq<char>, width: nat, fill: char) -> Seq<char> {
    if s.len() >= width {
        s
    } else {
        Seq::new((width - s.len()) as nat, |i: int| fill) + s
    }
}

/// `s` with `fill` put behind until it is `width` characters long.
pub open spec fn pad_right(s: Seq<char>, width: nat, fill: char) -> Seq<char> {
    if s.len() >= width {
        s
    } else {
        s + Seq::new((width - s.len()) as nat, |i: int| fill)
    }
}

/// `n` in decimal.
pub open spec fn decimal(n: nat) -> Seq<char> {
    digits(n, 10, false)
}

/// One digit as a character.
fn digit_to_char(d: u8, upper: bool) -> (c: char)
    requires
        d < 16,
    ensures
        c == digit_char(d as nat, upper),
{
    if d < 10 {
        (48 + d) as char
    } else if upper {
        (55 + d) as char
    } else {
        (87 + d) as char
    }
}

/// The digits of `n` in the given base.
pub fn digit_chars(n: u64, base: u64, upper: bool) -> (out: Vec<char>)
    requires
        2 <= base <= 16,
    ensures
        out@ == digits(n as nat, base as nat, upper),
    decreases n,
{
    if n < base {
        let mut out: Vec<char> = Vec::new();
        out.push(digit_to_char(n as u8, upper));
        assert(out@ =~= digits(n as nat, base as nat, upper));
        out
    } else {
        assert(n / base < n) by (nonlinear_arith)
            requires
                n >= base,
                base >= 2,
        ;
        let mut out = digit_chars(n / base, base, upper);
        out.push(digit_to_char((n % base) as u8, upper));
        out
    }
}

/// Pads characters on the left.
pub fn pad_chars_left(v: Vec<char>, width: usize, fill: char) -> (out: Vec<char>)
    ensures
        out@ == pad_left(v@, width as nat, fill),
{
    if v.len() >= width {
        return v;
    }
    let mut out: Vec<char> = Vec::new();
    let n: usize = width - v.len();
    let mut i: usize = 0;
    while i < n
        invariant
            i <= n,
            out@ =~= Seq::new(i as nat, |k: int| fill),
        decreases n - i,
    {
        out.push(fill);
        i += 1;
    }
    push_all(&mut out, &v);
    out
}

/// Pads characters on the right.
pub fn pad_chars_right(v: Vec<char>, width: usize, fill: char) -> (out: Vec<char>)
    ensures
        out@ == pad_right(v@, width as nat, fill),
{
    let ghost start = v@;
    let mut out = v;
    while out.len() < width
        invariant
            out@.len() >= start.len(),
            out@ =~= start + Seq::new((out@.len() - start.len()) as nat, |k: int| fill),
            out@.len() <= width || out@ == start,
        decreases width - out@.len(),
    {
        out.push(fill);
    }
    assert(out@ =~= pad_right(start, width as nat, fill));
    out
}

/// `n` in decimal.
pub fn decimal_string(n: u64) -> (out: String)
    ensures
        out@ == decimal(n as nat),
{
    let v = digit_chars(n, 10, false);
    string_of(&v)
}

/// `n` in decimal, with a minus sign where it is negative.
pub open spec fn signed_decimal(n: int) -> Seq<char> {
    if n < 0 {
        "-"@ + decimal((-n) as nat)
    } else {
        decimal(n as nat)
    }
}

/// `n` in decimal, with a minus sign where it is negative.
pub fn signed_decimal_string(n: i32) -> (out: String)
    ensures
        out@ == signed_decimal(n as int),
{
    let wide: i64 = n as i64;
    if wide < 0 {
        concat("-", decimal_string((-wide) as u64).as_str())
    } else {
        decimal_string(wide as u64)
    }
}

/// `n` in decimal, with zeros in front up to the given width.
pub fn decimal_padded(n: u64, width: usize) -> (out: String)
    ensures
        out@ == pad_left(decimal(n as nat), width as nat, '0'),
{
    let v = digit_chars(n, 10, false);
    let p = pad_chars_left(v, width, '0');
    string_of(&p)
}

/// `n` in hexadecimal, with zeros in front up to the given width.
pub fn hex_padded(n: u64, width: usize, upper: bool) -> (out: String)
    ensures
        out@ == pad_left(digits(n as nat, 16, upper), width as nat, '0'),
{
    let v = digit_chars(n, 16, upper);
    let p = pad_chars_left(v, width, '0');
    string_of(&p)
}

/// `n` in octal.
pub fn octal_string(n: u64) -> (out: String)
    ensures
        out@ == digits(n as nat, 8, false),
{
    let v = digit_chars(n, 8, false);
    string_of(&v)
}

/// The value of a digit in the given base, if the character is one.
pub open spec fn digit_value(c: char, base: nat) -> Option<nat> {
    let d: int = if '0' <= c <= '9' {
        c as int - 48
    } else if 'a' <= c <= 'z' {
        c as int - 87
    } else if 'A' <= c <= 'Z' {
        c as int - 55
    } else {
        base as int
    };
    if d < base {
        Some(d as nat)
    } else {
        None
    }
}

/// Why a text is no number.
#[derive(Debug, Clone, Copy, PartialEq, Eq, Structural)]
pub enum NumberError {
    Empty,
    InvalidDigit,
    TooLarge,
}

impl NumberError {
    /// The message shown to users.
    pub fn message(&self) -> (s: &'static str)
        ensures
            s@ == self.text(),
    {
        match self {
            NumberError::Empty => "cannot parse integer from empty string",
            NumberError::InvalidDigit => "invalid digit found in string",
            NumberError::TooLarge => "number too large to fit in target type",
        }
    }

    pub open spec fn text(&self) -> Seq<char> {
        match *self {
            NumberError::Empty => "cannot parse integer from empty string"@,
            NumberError::InvalidDigit => "invalid digit found in string"@,
            NumberError::TooLarge => "number too large to fit in target type"@,
        }
    }
}

/// The number that a run of digits denotes, read from the left up to the first
/// character that is no digit or takes the number beyond `max`.
pub open spec fn scan_digits(s: Seq<char>, base: nat, max: nat) -> Result<nat, NumberError>
    decreases s.len(),
{
    if s.len() == 0 {
        Ok(0)
    } else {
        match scan_digits(s.drop_last(), base, max) {
            Err(e) => Err(e),
            Ok(v) => match digit_value(s.last(), base) {
                None => Err(NumberError::InvalidDigit),
                Some(d) => if v * base + d <= max {
                    Ok(v * base + d)
                } else {
                    Err(NumberError::TooLarge)
                },
            },
        }
    }
}

/// An unsigned number no larger than `max`, with an optional plus sign in front.
pub open spec fn parse_unsigned(s: Seq<char>, base: nat, max: nat) -> Result<nat, NumberError> {
    if s.len() == 0 {
        Err(NumberError::Empty)
    } else if s.len() > 1 && s[0] == '+' {
        scan_digits(s.skip(1), base, max)
    } else {
        scan_digits(s, base, max)
    }
}

fn char_digit(c: char, base: u64) -> (r: Option<u64>)
    requires
        2 <= base <= 16,
    ensures
        match r {
            Some(d) => digit_value(c, base as nat) == Some(d as nat) && d < base,
            None => digit_value(c, base as nat) is None,
        },
{
    let d: u64 = if '0' <= c && c <= '9' {
        (c as u64) - 48
    } else if 'a' <= c && c <= 'z' {
        (c as u64) - 87
    } else if 'A' <= c && c <= 'Z' {
        (c as u64) - 55
    } else {
        base
    };
    if d < base {
        Some(d)
    } else {
        None
    }
}

/// Once a text has turned out to be no number, what follows does not matter.
proof fn lemma_scan_fails(s: Seq<char>, base: nat, max: nat, n: int)
    requires
        0 <= n <= s.len(),
        scan_digits(s.take(n), base, max) is Err,
    ensures
        scan_digits(s, base, max) == scan_digits(s.take(n), base, max),
    decreases s.len(),
{
    if n == s.len() {
        assert(s.take(n) =~= s);
    } else {
        assert(s.drop_last().take(n) =~= s.take(n));
        lemma_scan_fails(s.drop_last(), base, max, n);
    }
}

/// Reads an unsigned number no larger than `max`.
pub fn parse_number(s: &str, base: u64, max: u64) -> (r: Result<u64, NumberError>)
    requires
        2 <= base <= 16,
    ensures
        match r {
            Ok(v) => parse_unsigned(s@, base as nat, max as nat) matches Ok(n) && n == v,
            Err(e) => parse_unsigned(s@, base as nat, max as nat) matches Err(k) && k == e,
        },
{
    let sv = chars_of(s);
    if sv.len() == 0 {
        return Err(NumberError::Empty);
    }
    let start: usize = if sv.len() > 1 && sv[0] == '+' {
        1
    } else {
        0
    };
    let ghost body = s@.skip(start as int);
    assert(start == 0 ==> body =~= s@);
    let mut value: u64 = 0;
    let mut i: usize = start;
    assert(body.take(0) =~= Seq::<char>::empty());
    while i < sv.len()
        invariant
            sv@ == s@,
            start <= i <= sv@.len(),
            start <= 1,
            2 <= base <= 16,
            body == s@.skip(start as int),
            parse_unsigned(s@, base as nat, max as nat) == scan_digits(
                body,
                base as nat,
                max as nat,
            ),
            scan_digits(body.take(i - start), base as nat, max as nat) == Ok::<nat, NumberError>(
                value as nat,
            ),
        decreases sv@.len() - i,
    {
        let ghost n = i - start;
        assert(body.take(n + 1).drop_last() =~= body.take(n));
        assert(body.take(n + 1).last() == sv@[i as int]);
        match char_digit(sv[i], base) {
            None => {
                proof {
                    lemma_scan_fails(body, base as nat, max as nat, n + 1);
                }
                return Err(NumberError::InvalidDigit);
            },
            Some(d) => {
                assert(value * base + d <= 0xffff_ffff_ffff_ffff * 16 + 16) by (nonlinear_arith)
                    requires
                        value <= 0xffff_ffff_ffff_ffff,
                        base <= 16,
                        d < 16,
                ;
                assert(value * base >= 0) by (nonlinear_arith)
                    requires
                        value >= 0,
                        base >= 0,
                ;
                let next: u128 = (value as u128) * (base as u128) + (d as u128);
                if next > max as u128 {
                    proof {
                        lemma_scan_fails(body, base as nat, max as nat, n + 1);
                    }
                    return Err(NumberError::TooLarge);
                }
                value = next as u64;
            },
        }
        i += 1;
    }
    assert(body.take(i - start) =~= body);
    Ok(value)
}

/// Reading the digits of a number gives the number back.
pub proof fn law_digits_read_back(n: nat, base: nat, max: nat)
    requires
        2 <= base <= 16,
        n <= max,
    ensures
        scan_digits(digits(n, base, false), base, max) == Ok::<nat, NumberError>(n),
        scan_digits(digits(n, base, true), base, max) == Ok::<nat, NumberError>(n),
    decreases n,
{
    if n >= base {
        assert(n / base < n) by (nonlinear_arith)
            requires
                n >= base,
                base >= 2,
        ;
        law_digits_read_back(n / base, base, max);
        assert(n == (n / base) * base + n % base) by (nonlinear_arith)
            requires
                base >= 2,
        ;
        assert(digits(n, base, false).drop_last() =~= digits(n / base, base, false));
        assert(digits(n, base, true).drop_last() =~= digits(n / base, base, true));
    } else {
        assert(digits(n, base, false).drop_last() =~= Seq::<char>::empty());
        assert(digits(n, base, true).drop_last() =~= Seq::<char>::empty());
        assert(scan_digits(Seq::<char>::empty(), base, max) == Ok::<nat, NumberError>(0));
        assert(0 * base == 0) by (nonlinear_arith);
    }
}

/// A number has at least one digit.
pub proof fn lemma_digits_nonempty(n: nat, base: nat, upper: bool)
    ensures
        digits(n, base, upper).len() >= 1,
    decreases n,
{
    if base >= 2 && n >= base {
    }
}

/// Zeros in front of a number do not change what it denotes.
pub proof fn lemma_leading_zeros(zeros: nat, s: Seq<char>, base: nat, max: nat)
    requires
        2 <= base <= 16,
    ensures
        scan_digits(Seq::new(zeros, |i: int| '0') + s, base, max) == scan_digits(s, base, max),
    decreases s.len() + zeros,
{
    let z = Seq::new(zeros, |i: int| '0');
    if s.len() > 0 {
        lemma_leading_zeros(zeros, s.drop_last(), base, max);
        assert((z + s).drop_last() =~= z + s.drop_last());
    } else if zeros > 0 {
        lemma_leading_zeros((zeros - 1) as nat, s, base, max);
        assert((z + s).drop_last() =~= Seq::new((zeros - 1) as nat, |i: int| '0') + s);
        assert(0 * base == 0) by (nonlinear_arith);
    } else {
        assert(z + s =~= s);
    }
}

/// Every digit of a number is a digit of its base, so none of them is a plus sign.
proof fn lemma_digits_start(n: nat, base: nat)
    requires
        2 <= base <= 16,
    ensures
        digits(n, base, false)[0] != '+',
    decreases n,
{
    if n >= base {
        assert(n / base < n) by (nonlinear_arith)
            requires
                n >= base,
                base >= 2,
        ;
        lemma_digits_start(n / base, base);
        lemma_digits_nonempty(n / base, base, false);
    }
}

/// A zero-padded number, read in its base, is the number again.
pub proof fn law_padded_number_reads_back(n: nat, base: nat, width: nat, max: nat)
    requires
        2 <= base <= 16,
        n <= max,
    ensures
        parse_unsigned(pad_left(digits(n, base, false), width, '0'), base, max) == Ok::<
            nat,
            NumberError,
        >(n),
{
    let d = digits(n, base, false);
    law_digits_read_back(n, base, max);
    lemma_digits_nonempty(n, base, false);
    lemma_digits_start(n, base);
    if d.len() < width {
        let zeros = (width - d.len()) as nat;
        lemma_leading_zeros(zeros, d, base, max);
        assert(pad_left(d, width, '0') =~= Seq::new(zeros, |i: int| '0') + d);
    }
}

/// Two texts with a separator between them have the pieces of both, and a text without one
/// is a single piece.
pub proof fn law_pieces_stand_between_separators(a: Seq<char>, b: Seq<char>, sep: char)
    ensures
        split(a.push(sep) + b, sep) == split(a, sep) + split(b, sep),
        !b.contains(sep) ==> split(b, sep) == seq![b],
    decreases b.len(),
{
    let whole = a.push(sep) + b;
    if b.len() == 0 {
        assert(whole.drop_last() =~= a);
        assert(split(whole, sep) =~= split(a, sep) + split(b, sep));
        assert(b =~= Seq::empty());
    } else {
        let front = b.drop_last();
        law_pieces_stand_between_separators(a, front, sep);
        lemma_split_nonempty(front, sep);
        assert(whole.drop_last() =~= a.push(sep) + front);
        assert(split(whole, sep) =~= split(a, sep) + split(b, sep));
        if !b.contains(sep) {
            assert(b[b.len() - 1] != sep);
            assert forall|i: int| 0 <= i < front.len() implies front[i] != sep by {
                assert(b[i] != sep);
            }
            assert(front.push(b.last()) =~= b);
            assert(split(b, sep) =~= seq![b]);
        }
    }
}

/// A text is cut at its first separator: none stands in front of it, and the parts with the
/// separator between them are the text. Only a text without one cannot be cut.
pub proof fn law_texts_are_cut_at_the_first_separator(s: Seq<char>, sep: char)
    ensures
        cut(s, sep) is Some <==> s.contains(sep),
        cut(s, sep) matches Some(p) ==> !p.0.contains(sep) && p.0.push(sep) + p.1 == s,
{
    lemma_first_place(s, sep, 0);
    match first_at(s, sep, 0) {
        Some(i) => {
            assert(s[i] == sep);
            assert(s.take(i).push(sep) + s.skip(i + 1) =~= s);
            assert forall|k: int| 0 <= k < i implies s.take(i)[k] != sep by {
                assert(s.take(i)[k] == s[k]);
            }
        },
        None => {},
    }
}

proof fn lemma_first_place(s: Seq<char>, c: char, from: int)
    requires
        0 <= from,
    ensures
        match first_at(s, c, from) {
            Some(i) => from <= i < s.len() && s[i] == c && forall|k: int|
                from <= k < i ==> #[trigger] s[k] != c,
            None => forall|k: int| from <= k < s.len() ==> #[trigger] s[k] != c,
        },
    decreases s.len() - from,
{
    if from < s.len() && s[from] != c {
        lemma_first_place(s, c, from + 1);
    }
}

/// The digits of a number are digits: no other character is among them.
pub proof fn lemma_digits_are_digits(n: nat, base: nat, upper: bool)
    requires
        2 <= base <= 16,
    ensures
        forall|i: int|
            0 <= i < digits(n, base, upper).len() ==> {
                let c = #[trigger] digits(n, base, upper)[i];
                '0' <= c <= '9' || 'a' <= c <= 'f' || 'A' <= c <= 'F'
            },
    decreases n,
{
    if n >= base {
        assert(n / base < n) by (nonlinear_arith)
            requires
                n >= base,
                base >= 2,
        ;
        lemma_digits_are_digits(n / base, base, upper);
        assert(n % base < base) by (nonlinear_arith)
            requires
                base >= 2,
        ;
        let front = digits(n / base, base, upper);
        assert forall|i: int| 0 <= i < digits(n, base, upper).len() implies {
            let c = #[trigger] digits(n, base, upper)[i];
            '0' <= c <= '9' || 'a' <= c <= 'f' || 'A' <= c <= 'F'
        } by {
            if i < front.len() {
                assert(digits(n, base, upper)[i] == front[i]);
            } else {
                lemma_digit_char(n % base, upper);
            }
        }
    } else {
        lemma_digit_char(n, upper);
    }
}

proof fn lemma_digit_char(d: nat, upper: bool)
    requires
        d < 16,
    ensures
        ({
            let c = digit_char(d, upper);
            '0' <= c <= '9' || 'a' <= c <= 'f' || 'A' <= c <= 'F'
        }),
{
}

/// A text without the blanks around it begins and ends with a character that is none, and
/// nothing but blanks was taken away.
pub proof fn law_blanks_around_a_text_are_taken_away(s: Seq<char>)
    ensures
        trimmed(s).len() > 0 ==> !is_blank(trimmed(s)[0]) && !is_blank(trimmed(s).last()),
        exists|i: int, j: int|
            0 <= i <= j <= s.len() && trimmed(s) == #[trigger] s.subrange(i, j) && (forall|k: int|
                0 <= k < i || j <= k < s.len() ==> is_blank(#[trigger] s[k])),
{
    lemma_trimmed_end(s);
    let e = trimmed_end(s);
    lemma_trimmed_start(e);
    let j = e.len() as int;
    let i = j - trimmed(s).len();
    assert(trimmed(s) =~= s.subrange(i, j));
    assert forall|k: int| 0 <= k < i || j <= k < s.len() implies is_blank(#[trigger] s[k]) by {
        if k < i {
            assert(e[k] == s[k]);
        }
    }
    if trimmed(s).len() > 0 {
        assert(trimmed(s).last() == e.last());
    }
}

proof fn lemma_trimmed_end(s: Seq<char>)
    ensures
        trimmed_end(s).len() <= s.len(),
        trimmed_end(s) == s.take(trimmed_end(s).len() as int),
        trimmed_end(s).len() > 0 ==> !is_blank(trimmed_end(s).last()),
        forall|k: int| trimmed_end(s).len() <= k < s.len() ==> is_blank(#[trigger] s[k]),
    decreases s.len(),
{
    if s.len() > 0 && is_blank(s.last()) {
        let front = s.drop_last();
        lemma_trimmed_end(front);
        assert(trimmed_end(s) =~= s.take(trimmed_end(s).len() as int));
        assert forall|k: int| trimmed_end(s).len() <= k < s.len() implies is_blank(
            #[trigger] s[k],
        ) by {
            if k < front.len() {
                assert(front[k] == s[k]);
            }
        }
    } else {
        assert(s =~= s.take(s.len() as int));
    }
}

proof fn lemma_trimmed_start(s: Seq<char>)
    ensures
        trimmed_start(s).len() <= s.len(),
        trimmed_start(s) == s.skip(s.len() - trimmed_start(s).len()),
        trimmed_start(s).len() > 0 ==> !is_blank(trimmed_start(s)[0]),
        forall|k: int| 0 <= k < s.len() - trimmed_start(s).len() ==> is_blank(#[trigger] s[k]),
    decreases s.len(),
{
    if s.len() > 0 && is_blank(s[0]) {
        let rest = s.drop_first();
        lemma_trimmed_start(rest);
        assert(trimmed_start(s) =~= s.skip(s.len() - trimmed_start(s).len()));
        assert forall|k: int| 0 <= k < s.len() - trimmed_start(s).len() implies is_blank(
            #[trigger] s[k],
        ) by {
            if k > 0 {
                assert(rest[k - 1] == s[k]);
            }
        }
    } else {
        assert(s =~= s.skip(0));
    }
}

/// Filling up a text keeps it, at the end or at the front, and makes it as wide as asked for
/// and no wider.
pub proof fn law_filled_texts_keep_their_text(s: Seq<char>, width: nat, fill: char)
    ensures
        s.len() >= width ==> pad_left(s, width, fill) == s && pad_right(s, width, fill) == s,
        s.len() < width ==> {
            &&& pad_left(s, width, fill).len() == width
            &&& pad_right(s, width, fill).len() == width
            &&& pad_left(s, width, fill).skip(width - s.len()) == s
            &&& pad_right(s, width, fill).take(s.len() as int) == s
            &&& forall|i: int|
                0 <= i < width - s.len() ==> #[trigger] pad_left(s, width, fill)[i] == fill
            &&& forall|i: int|
                s.len() <= i < width ==> #[trigger] pad_right(s, width, fill)[i] == fill
        },
{
    if s.len() < width {
        assert(pad_left(s, width, fill).skip(width - s.len()) =~= s);
        assert(pad_right(s, width, fill).take(s.len() as int) =~= s);
    }
}

/// Lines end with a line feed, which is not part of them, and a carriage return in front of it
/// is not either; what stands behind the last one is a line where there is anything.
pub proof fn law_lines_end_with_a_line_feed(line: Seq<char>, rest: Seq<char>)
    requires
        !line.contains('\n'),
    ensures
        lines(line.push('\n') + rest) == seq![without_return(line)] + lines(rest),
        line.len() > 0 ==> lines(line) == seq![line],
        lines(Seq::empty()).len() == 0,
        without_return(line.push('\r')) == line,
        line.len() > 0 && line.last() != '\r' ==> without_return(line) == line,
{
    let whole = line.push('\n') + rest;
    law_pieces_stand_between_separators(line, rest, '\n');
    law_pieces_stand_between_separators(Seq::empty(), line, '\n');
    lemma_split_nonempty(rest, '\n');
    let ps = split(rest, '\n');
    let all = split(whole, '\n');
    assert(all =~= seq![line] + ps);
    let strip = |l: Seq<char>| without_return(l);
    assert(all.drop_last() =~= seq![line] + ps.drop_last());
    assert(all.drop_last().map_values(strip) =~= seq![without_return(line)]
        + ps.drop_last().map_values(strip));
    assert(lines(whole) =~= seq![without_return(line)] + lines(rest));
    assert(line.push('\r').drop_last() =~= line);
    if line.len() > 0 {
        assert(seq![line].drop_last().map_values(strip) =~= Seq::empty());
        assert(lines(line) =~= seq![line]);
    }
    let none = split(Seq::<char>::empty(), '\n');
    assert(none.drop_last().map_values(strip) =~= Seq::empty());
}

/// A text is joined from its parts in order, with the separator between each two.
pub proof fn law_parts_are_joined_in_order(
    a: Seq<Seq<char>>,
    b: Seq<Seq<char>>,
    sep: Seq<char>,
    part: Seq<char>,
)
    ensures
        a.len() > 0 && b.len() > 0 ==> join(a + b, sep) == join(a, sep) + sep + join(b, sep),
        join(seq![part], sep) == part,
        join(Seq::empty(), sep).len() == 0,
    decreases b.len(),
{
    if a.len() > 0 && b.len() > 0 {
        assert((a + b).drop_last() =~= a + b.drop_last());
        assert((a + b).last() == b.last());
        if b.len() == 1 {
            assert(a + b.drop_last() =~= a);
            assert(join(a + b, sep) =~= join(a, sep) + sep + join(b, sep));
        } else {
            law_parts_are_joined_in_order(a, b.drop_last(), sep, part);
            assert(join(a + b, sep) =~= join(a, sep) + sep + join(b, sep));
        }
    }
}

/// Turning letters into upper or lower case changes the case of ASCII letters and nothing
/// else, and one undoes the other.
pub proof fn law_case_changes_only_letters(s: Seq<char>, i: int)
    requires
        0 <= i < s.len(),
    ensures
        ascii_upper(s).len() == s.len() && ascii_lower(s).len() == s.len(),
        !('a' <= s[i] <= 'z') ==> ascii_upper(s)[i] == s[i],
        !('A' <= s[i] <= 'Z') ==> ascii_lower(s)[i] == s[i],
        !('a' <= ascii_upper(s)[i] <= 'z') && !('A' <= ascii_lower(s)[i] <= 'Z'),
        'a' <= s[i] <= 'z' ==> ascii_lower(ascii_upper(s))[i] == s[i],
        'A' <= s[i] <= 'Z' ==> ascii_upper(ascii_lower(s))[i] == s[i],
        ascii_upper(ascii_lower(s))[i] == ascii_upper(s)[i],
{
}

} // verus!
