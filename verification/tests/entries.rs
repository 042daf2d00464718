use bifrost::entry::{map_child_path, map_control_path, EntryMapping, PathLayout};
use bifrost::paths;
use std::path::{Path, PathBuf};

#[test]
fn remote_to_prefixed_target_maps_relative_paths() {
    let mapping =
        EntryMapping::remote_to_prefixed_target("COPY_COMMON_FULL_x/D_REPO".to_string());
    let logical_root = "/ds2";
    let dir = "/ds2/a/b";
    assert_eq!(map_control_path(&mapping.dir_source, dir, logical_root), "a/b");
    assert_eq!(
        map_control_path(&mapping.dir_target, dir, logical_root),
        "COPY_COMMON_FULL_x/D_REPO/ds2/a/b"
    );
    assert_eq!(map_child_path(&mapping.file_source, dir, "f.txt", logical_root), "a/b/f.txt");
    assert_eq!(
        map_child_path(&mapping.file_target, dir, "f.txt", logical_root),
        "COPY_COMMON_FULL_x/D_REPO/ds2/a/b/f.txt"
    );
}

#[test]
fn local_source_layout_joins_real_root() {
    assert_eq!(
        map_control_path(
            &PathLayout::LocalSource { root: "/opt/dataset/ds2".to_string() },
            "/ds2/dir",
            "/ds2"
        ),
        "/opt/dataset/ds2/dir"
    );
}

fn corpus() -> Vec<String> {
    let parts = ["", "a", "b.txt", ".", "..", "a/b", "a//b", "./a", "a/.", "a/./b", "../a"];
    let mut all: Vec<String> = Vec::new();
    for p in parts.iter() {
        for lead in ["", "/", "//"].iter() {
            for tail in ["", "/", "//", "/."].iter() {
                all.push(format!("{}{}{}", lead, p, tail));
            }
        }
    }
    all
}

#[test]
fn single_paths_behave_like_the_standard_library() {
    for s in corpus() {
        let p = Path::new(&s);
        let want: Vec<String> =
            p.components().map(|c| c.as_os_str().to_str().unwrap().to_string()).collect();
        assert_eq!(paths::components_of(&s), want, "components of {:?}", s);
        assert_eq!(
            paths::parent_of(&s),
            p.parent().map(|x| x.to_str().unwrap().to_string()),
            "parent of {:?}",
            s
        );
        assert_eq!(
            paths::file_name_of(&s),
            p.file_name().map(|x| x.to_str().unwrap().to_string()),
            "name of {:?}",
            s
        );
    }
}

#[test]
fn pairs_of_paths_behave_like_the_standard_library() {
    let all = corpus();
    for a in all.iter() {
        for b in all.iter() {
            let p = Path::new(a);
            let q = Path::new(b);
            assert_eq!(paths::join_path(a, b), p.join(q).to_str().unwrap());
            assert_eq!(paths::same_path(a, b), PathBuf::from(a) == PathBuf::from(b));
            assert_eq!(paths::path_starts_with(a, b), p.starts_with(q));
            assert_eq!(
                paths::strip_base(a, b),
                p.strip_prefix(q).ok().map(|x| x.to_str().unwrap().to_string()),
                "{:?} without {:?}",
                a,
                b
            );
        }
    }
}
