use directory_pickers::path::DirectoryPath;
use directory_pickers::scanner::{
    marks_project, visit, walk_plan, WalkEntry, WalkEvent, WalkState,
};

fn entry(path: &str, depth: usize, has_git: bool, file_names: &[&str]) -> WalkEvent {
    WalkEvent::Entry(WalkEntry {
        path: DirectoryPath::from_text(path),
        depth,
        has_git,
        file_names: file_names.iter().map(|n| n.to_string()).collect(),
    })
}

fn collect_results(events: Vec<WalkEvent>) -> Vec<String> {
    let mut directories = Vec::new();
    for event in events {
        if let (Some(directory), _) = visit(event) {
            directories.push(directory.to_text());
        }
    }
    directories
}

#[test]
fn test_scan_git_directories_empty_dir() {
    let result = collect_results(vec![entry("/tmp/.scan", 0, false, &[])]);
    assert!(result.is_empty());
}

#[test]
fn test_scan_git_directories_with_git_repo() {
    let result = collect_results(vec![
        entry("/tmp/.scan", 0, false, &[]),
        entry("/tmp/.scan/test-repo", 1, true, &[]),
    ]);
    assert_eq!(result.len(), 1);
    assert_eq!(result[0], "/tmp/.scan/test-repo");
}

#[test]
fn test_scan_git_directories_with_source_files() {
    let result = collect_results(vec![
        entry("/tmp/.scan", 0, false, &[]),
        entry("/tmp/.scan/rust-project", 1, true, &["main.rs"]),
    ]);
    assert_eq!(result.len(), 1);
    assert_eq!(result[0], "/tmp/.scan/rust-project");
}

#[test]
fn test_streaming_scan_git_directories() {
    let received_dirs = collect_results(vec![
        entry("/tmp/.scan", 0, false, &[]),
        entry("/tmp/.scan/repo-gamma", 1, true, &[]),
        entry("/tmp/.scan/repo-alpha", 1, true, &[]),
        entry("/tmp/.scan/repo-beta", 1, true, &[]),
    ]);
    assert_eq!(received_dirs.len(), 3);
    let received_names: Vec<&str> =
        received_dirs.iter().map(|p| p.rsplit('/').next().unwrap()).collect();
    assert!(received_names.contains(&"repo-alpha"));
    assert!(received_names.contains(&"repo-beta"));
    assert!(received_names.contains(&"repo-gamma"));
}

#[test]
fn repositories_are_not_entered() {
    let (listed, state) = visit(entry("/g/repo", 1, true, &[]));
    assert_eq!(listed.unwrap().to_text(), "/g/repo");
    assert!(matches!(state, WalkState::Skip));
    let (listed, state) = visit(entry("/g/group", 1, false, &["notes.txt"]));
    assert!(listed.is_none());
    assert!(matches!(state, WalkState::Continue));
    let (listed, state) = visit(WalkEvent::Unreadable);
    assert!(listed.is_none());
    assert!(matches!(state, WalkState::Continue));
}

#[test]
fn repositories_inside_repositories_are_not_listed() {
    let tree = [
        ("/g", 0, false, &[][..]),
        ("/g/a", 1, true, &[][..]),
        ("/g/a/b", 2, true, &[][..]),
        ("/g/ab", 1, true, &[][..]),
        ("/g/work", 1, false, &["README.md"][..]),
        ("/g/work/c", 2, true, &[][..]),
    ];
    let mut skipped: Vec<String> = Vec::new();
    let mut listed: Vec<String> = Vec::new();
    for (path, depth, has_git, file_names) in tree {
        if skipped.iter().any(|outer| path.starts_with(outer.as_str())) {
            continue;
        }
        let (directory, state) = visit(entry(path, depth, has_git, file_names));
        if matches!(state, WalkState::Skip) {
            skipped.push(format!("{}/", path));
        }
        if let Some(directory) = directory {
            listed.push(directory.to_text());
        }
    }
    assert_eq!(listed, vec!["/g/a", "/g/ab", "/g/work", "/g/work/c"]);
}

#[test]
fn hidden_directories_are_neither_listed_nor_entered() {
    let (listed, state) = visit(entry("/g/.cache", 1, true, &["main.rs"]));
    assert!(listed.is_none());
    assert!(matches!(state, WalkState::Skip));
    let (listed, state) = visit(entry("/g/.scan", 0, true, &[]));
    assert_eq!(listed.unwrap().to_text(), "/g/.scan");
    assert!(matches!(state, WalkState::Skip));
}

#[test]
fn files_mark_projects() {
    for name in [".gitignore", ".gitmodules", "README.md", "main.rs", "a.b.py", "x.tsx", "x.zig"] {
        assert!(marks_project(name), "{}", name);
        let (listed, state) = visit(entry("/g/p", 2, false, &["notes.txt", name]));
        assert_eq!(listed.unwrap().to_text(), "/g/p");
        assert!(matches!(state, WalkState::Continue));
    }
    for name in ["", ".", "rs", ".rs", "main.rs.bak", "readme.md", "README", "x.", "x.RS", "main_rs"] {
        assert!(!marks_project(name), "{}", name);
    }
}

#[test]
fn only_git_marks_the_start_of_the_walk() {
    let (listed, state) = visit(entry("/g", 0, false, &["README.md", "main.rs"]));
    assert!(listed.is_none());
    assert!(matches!(state, WalkState::Continue));
    let (listed, state) = visit(entry("/g", 0, true, &[]));
    assert_eq!(listed.unwrap().to_text(), "/g");
    assert!(matches!(state, WalkState::Skip));
}

#[test]
fn walks_go_through_all_roots_in_order() {
    let plan = walk_plan(vec![
        DirectoryPath::from_text("/a"),
        DirectoryPath::from_text("/b"),
        DirectoryPath::from_text("/c"),
    ]);
    assert_eq!(plan.first.to_text(), "/a");
    let rest: Vec<String> = plan.rest.iter().map(|p| p.to_text()).collect();
    assert_eq!(rest, vec!["/b", "/c"]);
    let plan = walk_plan(vec![DirectoryPath::from_text("/a")]);
    assert_eq!(plan.first.to_text(), "/a");
    assert!(plan.rest.is_empty());
}
