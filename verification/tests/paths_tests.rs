use pji::paths::{components_of, file_name_of, parent_of, path_join, paths_equal, starts_with};
use std::path::{Component, Path};

fn all_paths(max_len: usize) -> Vec<String> {
    let alphabet = ['/', '.', 'a', 'b'];
    let mut all = vec![String::new()];
    let mut last = vec![String::new()];
    for _ in 0..max_len {
        let mut next = Vec::new();
        for p in &last {
            for c in alphabet {
                let mut q = p.clone();
                q.push(c);
                next.push(q);
            }
        }
        all.extend(next.iter().cloned());
        last = next;
    }
    all
}

fn std_components(p: &str) -> Vec<String> {
    Path::new(p)
        .components()
        .map(|c| match c {
            Component::RootDir => "/".to_string(),
            Component::CurDir => ".".to_string(),
            Component::ParentDir => "..".to_string(),
            Component::Normal(name) => name.to_string_lossy().into_owned(),
            Component::Prefix(prefix) => prefix.as_os_str().to_string_lossy().into_owned(),
        })
        .collect()
}

#[test]
fn parents_are_what_std_gives() {
    for p in all_paths(7) {
        let expected = Path::new(&p).parent().map(|q| q.to_string_lossy().into_owned());
        assert_eq!(parent_of(&p), expected, "{:?}", p);
    }
}

#[test]
fn file_names_are_what_std_gives() {
    for p in all_paths(7) {
        let expected = Path::new(&p).file_name().map(|n| n.to_string_lossy().into_owned());
        assert_eq!(file_name_of(&p), expected, "{:?}", p);
    }
}

#[test]
fn components_are_what_std_gives() {
    for p in all_paths(7) {
        assert_eq!(components_of(&p), std_components(&p), "{:?}", p);
    }
}

#[test]
fn prefixes_are_what_std_gives() {
    let paths = all_paths(4);
    for path in &paths {
        for base in &paths {
            assert_eq!(
                starts_with(path, base),
                Path::new(path).starts_with(base),
                "{:?} {:?}",
                path,
                base
            );
            assert_eq!(paths_equal(path, base), Path::new(path) == Path::new(base));
        }
    }
}

#[test]
fn joins_are_what_std_gives() {
    let paths = all_paths(3);
    for base in &paths {
        for part in &paths {
            let expected = Path::new(base).join(part).to_string_lossy().into_owned();
            assert_eq!(path_join(base, part), expected, "{:?} {:?}", base, part);
        }
    }
}

#[test]
fn parents_of_usual_paths() {
    assert_eq!(parent_of("/r/.git/worktrees/feat"), Some("/r/.git/worktrees".to_string()));
    assert_eq!(parent_of("/r/.git/worktrees"), Some("/r/.git".to_string()));
    assert_eq!(parent_of("/r/.git"), Some("/r".to_string()));
    assert_eq!(parent_of("/r"), Some("/".to_string()));
    assert_eq!(parent_of("/"), None);
    assert_eq!(parent_of(""), None);
    assert_eq!(parent_of("a"), Some(String::new()));
    assert_eq!(parent_of("a/b/"), Some("a".to_string()));
    assert_eq!(parent_of("a//b/./"), Some("a".to_string()));
    assert_eq!(parent_of("./a"), Some(".".to_string()));
    assert_eq!(parent_of("."), Some(String::new()));
    assert_eq!(parent_of("日本/語"), Some("日本".to_string()));
}

#[test]
fn file_names_of_usual_paths() {
    assert_eq!(file_name_of("/home/u/proj"), Some("proj".to_string()));
    assert_eq!(file_name_of("/home/u/proj/"), Some("proj".to_string()));
    assert_eq!(file_name_of("proj.git"), Some("proj.git".to_string()));
    assert_eq!(file_name_of("/home/u/.."), None);
    assert_eq!(file_name_of("/"), None);
    assert_eq!(file_name_of("."), None);
    assert_eq!(file_name_of(""), None);
    assert_eq!(file_name_of("a/..b"), Some("..b".to_string()));
}

#[test]
fn prefixes_of_usual_paths() {
    assert!(starts_with("/ws/h/u/r/src", "/ws/h/u/r"));
    assert!(starts_with("/ws/h/u/r", "/ws/h/u/r/"));
    assert!(starts_with("/ws/h//u/./r", "/ws/h/u"));
    assert!(!starts_with("/ws/h/u/repo", "/ws/h/u/r"));
    assert!(!starts_with("/ws/h/u", "/ws/h/u/r"));
    assert!(!starts_with("ws/h", "/ws/h"));
    assert!(starts_with("/ws", ""));
}
