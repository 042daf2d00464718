//! Where a recorded path lies on a target.
use vstd::prelude::*;

use crate::paths;

verus! {

/// A path relative to a base. A path outside the base keeps its last component if it is
/// absolute, and stays as it is otherwise.
pub open spec fn relative_to(base: Seq<char>, path: Seq<char>) -> Seq<char> {
    match paths::strip_prefix(path, base) {
        Some(rest) => rest,
        None => if paths::is_absolute(path) {
            match paths::file_name(path) {
                Some(name) => name,
                None => path,
            }
        } else {
            path
        },
    }
}

pub fn make_relative(base: &str, path: &str) -> (s: String)
    ensures
        s@ == relative_to(base@, path@),
{
    match paths::strip_base(path, base) {
        Some(rest) => rest,
        None => {
            let first = crate::text::chars_of(path);
            if first.len() > 0 && first[0] == '/' {
                match paths::file_name_of(path) {
                    Some(name) => name,
                    None => path.to_owned(),
                }
            } else {
                path.to_owned()
            }
        },
    }
}

/// The first component of an absolute path behind its root.
pub open spec fn first_segment(path: Seq<char>) -> Option<Seq<char>> {
    match paths::strip_prefix(path, seq!['/']) {
        Some(rest) => if paths::components(rest).len() > 0 {
            Some(paths::components(rest)[0])
        } else {
            None
        },
        None => None,
    }
}

/// A path as it appears on a target, before the prefix: relative to the base where it
/// lies below it; otherwise without its leading slash where its first component is the
/// name of the base; otherwise its last component alone.
pub open spec fn target_relative(base: Seq<char>, path: Seq<char>) -> Seq<char> {
    match paths::strip_prefix(path, base) {
        Some(rest) => rest,
        None => if paths::file_name(base) is Some && paths::file_name(base) == first_segment(path) {
            match paths::strip_prefix(path, seq!['/']) {
                Some(rest) => rest,
                None => path,
            }
        } else {
            match paths::file_name(path) {
                Some(name) => name,
                None => path,
            }
        },
    }
}

fn same_option(a: &Option<String>, b: &Option<String>) -> (r: bool)
    ensures
        r == (match (*a, *b) {
            (Some(x), Some(y)) => x@ == y@,
            (None, None) => true,
            _ => false,
        }),
{
    match (a, b) {
        (Some(x), Some(y)) => crate::text::same(x.as_str(), y.as_str()),
        (None, None) => true,
        _ => false,
    }
}

fn first_segment_of(path: &str) -> (r: Option<String>)
    ensures
        match r {
            Some(s) => first_segment(path@) == Some(s@),
            None => first_segment(path@) is None,
        },
{
    proof {
        reveal_strlit("/");
        assert("/"@ =~= seq!['/']);
    }
    match paths::strip_base(path, "/") {
        Some(rest) => {
            let parts = paths::components_of(rest.as_str());
            assert(crate::text::views(parts@).len() == parts@.len());
            if parts.len() > 0 {
                Some(parts[0].clone())
            } else {
                None
            }
        },
        None => None,
    }
}

/// The path of a file on a target whose data lies below a prefix; without one it is the
/// path relative to the base.
pub open spec fn behind_prefix(base: Seq<char>, prefix: Seq<char>, path: Seq<char>) -> Seq<char> {
    if prefix.len() == 0 {
        target_relative(base, path)
    } else {
        paths::join(prefix, target_relative(base, path))
    }
}

/// The path of a file on a target whose data lies below `target_prefix`.
pub fn target_relative_path(base: &str, target_prefix: &str, path: &str) -> (s: String)
    ensures
        s@ == behind_prefix(base@, target_prefix@, path@),
{
    proof {
        reveal_strlit("/");
        assert("/"@ =~= seq!['/']);
    }
    let rel = match paths::strip_base(path, base) {
        Some(rest) => rest,
        None => {
            let root_name = paths::file_name_of(base);
            let segment = first_segment_of(path);
            if root_name.is_some() && same_option(&root_name, &segment) {
                match paths::strip_base(path, "/") {
                    Some(rest) => rest,
                    None => path.to_owned(),
                }
            } else {
                match paths::file_name_of(path) {
                    Some(name) => name,
                    None => path.to_owned(),
                }
            }
        },
    };
    if target_prefix.is_empty() {
        rel
    } else {
        paths::join_path(target_prefix, rel.as_str())
    }
}

/// A recorded path as it lies below the target, before the target's own path: relative to
/// the base where it lies below it. Of other absolute paths, logical ones lose their
/// leading slash alone, and so do those whose first component is the name of the base;
/// the rest keep their last component. A relative path stays as it is.
pub open spec fn placed(base: Seq<char>, path: Seq<char>, logical_paths: bool) -> Seq<char> {
    match paths::strip_prefix(path, base) {
        Some(rest) => rest,
        None => if !paths::is_absolute(path) {
            path
        } else if logical_paths || (paths::file_name(base) is Some && paths::file_name(base)
            == first_segment(path)) {
            match paths::strip_prefix(path, seq!['/']) {
                Some(rest) => rest,
                None => path,
            }
        } else {
            match paths::file_name(path) {
                Some(name) => name,
                None => path,
            }
        },
    }
}

/// Where a recorded path lies on the target.
pub open spec fn placed_below(
    base: Seq<char>,
    target_base: Seq<char>,
    path: Seq<char>,
    logical_paths: bool,
) -> Seq<char> {
    paths::join(target_base, placed(base, path, logical_paths))
}

/// Where a recorded path lies on the target.
pub fn make_relative_and_join(base: &str, target_base: &str, path: &str, logical_paths: bool) -> (s:
    String)
    ensures
        s@ == placed_below(base@, target_base@, path@, logical_paths),
{
    proof {
        reveal_strlit("/");
        assert("/"@ =~= seq!['/']);
    }
    let rel = match paths::strip_base(path, base) {
        Some(rest) => rest,
        None => {
            let chars = crate::text::chars_of(path);
            if chars.len() == 0 || chars[0] != '/' {
                path.to_owned()
            } else {
                let root_name = paths::file_name_of(base);
                let segment = first_segment_of(path);
                if logical_paths || (root_name.is_some() && same_option(&root_name, &segment)) {
                    match paths::strip_base(path, "/") {
                        Some(rest) => rest,
                        None => path.to_owned(),
                    }
                } else {
                    match paths::file_name_of(path) {
                        Some(name) => name,
                        None => path.to_owned(),
                    }
                }
            }
        },
    };
    paths::join_path(target_base, rel.as_str())
}

/// A clean path below the base appears on the target below the prefix, unchanged.
pub proof fn law_path_below_base_is_kept(base: Seq<char>, rel: Seq<char>)
    requires
        base.len() > 0,
        paths::is_clean(rel),
    ensures
        target_relative(base, paths::join(base, rel)) == rel,
        relative_to(base, paths::join(base, rel)) == rel,
        placed(base, paths::join(base, rel), true) == rel,
        placed(base, paths::join(base, rel), false) == rel,
{
    paths::law_strip_undoes_join(base, rel);
}

/// What lies below the base stands on the target below its prefix, and can be found there
/// again; no prefix puts it at the top.
pub proof fn law_prefix_stands_in_front(base: Seq<char>, prefix: Seq<char>, rel: Seq<char>)
    requires
        base.len() > 0,
        paths::is_clean(rel),
    ensures
        prefix.len() == 0 ==> behind_prefix(base, prefix, paths::join(base, rel)) == rel,
        prefix.len() > 0 ==> paths::strip_prefix(
            behind_prefix(base, prefix, paths::join(base, rel)),
            prefix,
        ) == Some(rel),
{
    law_path_below_base_is_kept(base, rel);
    if prefix.len() > 0 {
        paths::law_strip_undoes_join(prefix, rel);
    }
}

/// An absolute path that does not lie below the base keeps all of its components where paths
/// are logical, or where it begins with the name of the base; otherwise it keeps the last one.
pub proof fn law_paths_outside_the_base(base: Seq<char>, rel: Seq<char>)
    requires
        paths::is_clean(rel),
        !paths::starts_with(seq!['/'] + rel, base),
    ensures
        placed(base, seq!['/'] + rel, true) == rel,
        paths::file_name(base) == Some(paths::pieces(rel)[0]) ==> {
            &&& placed(base, seq!['/'] + rel, false) == rel
            &&& target_relative(base, seq!['/'] + rel) == rel
        },
        paths::file_name(base) != Some(paths::pieces(rel)[0]) ==> {
            &&& paths::file_name(seq!['/'] + rel) matches Some(n) ==> placed(
                base,
                seq!['/'] + rel,
                false,
            ) == n && target_relative(base, seq!['/'] + rel) == n
            &&& paths::file_name(seq!['/'] + rel) is None ==> placed(
                base,
                seq!['/'] + rel,
                false,
            ) == seq!['/'] + rel && target_relative(base, seq!['/'] + rel) == seq!['/'] + rel
        },
        paths::file_name(seq!['/'] + rel) matches Some(n) ==> relative_to(base, seq!['/'] + rel)
            == n,
{
    paths::law_leading_slash_is_stripped(rel);
    paths::lemma_first_piece(rel);
    paths::lemma_clean_components(rel);
    assert(first_segment(seq!['/'] + rel) == Some(paths::pieces(rel)[0]));
}

/// A relative path that does not lie below the base stays as it is.
pub proof fn law_relative_paths_outside_the_base(base: Seq<char>, rel: Seq<char>, logical: bool)
    requires
        !paths::is_absolute(rel),
        !paths::starts_with(rel, base),
    ensures
        placed(base, rel, logical) == rel,
        relative_to(base, rel) == rel,
{
}

/// A recorded path is placed below the target: what stands behind the target's own path is
/// what stood behind the base, or, of logical paths, behind the root.
pub proof fn law_placed_paths_are_found_again(
    base: Seq<char>,
    target: Seq<char>,
    rel: Seq<char>,
    logical: bool,
)
    requires
        base.len() > 0,
        target.len() > 0,
        paths::is_clean(rel),
    ensures
        paths::strip_prefix(placed_below(base, target, paths::join(base, rel), logical), target)
            == Some(rel),
        !paths::starts_with(seq!['/'] + rel, base) ==> paths::strip_prefix(
            placed_below(base, target, seq!['/'] + rel, true),
            target,
        ) == Some(rel),
{
    law_path_below_base_is_kept(base, rel);
    paths::law_strip_undoes_join(target, rel);
    if !paths::starts_with(seq!['/'] + rel, base) {
        law_paths_outside_the_base(base, rel);
    }
}

} // verus!
