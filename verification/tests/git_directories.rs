use directory_pickers::expansion::expand_path;
use directory_pickers::git_directories::{
    scan_step, GitDirectoriesDelegate, OpenGitDirectory, Response, ScanAction, ScanEvent,
};
use directory_pickers::matching::StringMatch;
use directory_pickers::path::DirectoryPath;
use directory_pickers::score::Score;

fn delegate(create_new_window: bool, directories: &[&str]) -> GitDirectoriesDelegate {
    let directories = directories.iter().map(|d| d.to_string()).collect();
    GitDirectoriesDelegate::try_new(create_new_window, directories).unwrap()
}

fn found(candidate_id: usize, score: f64) -> StringMatch {
    StringMatch {
        candidate_id,
        score: Score { bits: score.to_bits() },
        positions: vec![0],
        string: String::new(),
    }
}

#[test]
fn test_git_directories_delegate_creation() {
    let directories = vec!["~/git".to_string()];
    let delegate = GitDirectoriesDelegate::new(false, directories);
    assert_eq!(delegate.directories.len(), 0);
    assert_eq!(delegate.matches.len(), 0);
    assert_eq!(delegate.selected_match_index, 0);
    assert!(!delegate.create_new_window);
    assert_eq!(delegate.scan_directories.len(), 1);
    assert!(delegate.scan_directories[0].to_text().ends_with("git"));
}

#[test]
fn test_git_directories_delegate_with_multiple_directories() {
    let directories = vec!["$HOME/work".to_string(), "$HOME/personal".to_string()];
    let delegate = GitDirectoriesDelegate::new(false, directories);
    assert_eq!(delegate.directories.len(), 0);
    assert_eq!(delegate.matches.len(), 0);
    assert_eq!(delegate.selected_match_index, 0);
    assert!(!delegate.create_new_window);
    assert_eq!(delegate.scan_directories.len(), 2);
    assert!(delegate.scan_directories[0].to_text().ends_with("work"));
    assert!(delegate.scan_directories[1].to_text().ends_with("personal"));
}

#[test]
fn test_add_directory_sorted_insertion() {
    let mut delegate = GitDirectoriesDelegate::new(false, vec![]);

    delegate.add_directory(DirectoryPath::from_text("/path/to/zebra"));
    delegate.add_directory(DirectoryPath::from_text("/path/to/alpha"));
    delegate.add_directory(DirectoryPath::from_text("/path/to/beta"));
    delegate.add_directory(DirectoryPath::from_text("/path/to/charlie"));

    assert_eq!(delegate.directories.len(), 4);
    assert_eq!(delegate.directories[0].to_text(), "/path/to/alpha");
    assert_eq!(delegate.directories[1].to_text(), "/path/to/beta");
    assert_eq!(delegate.directories[2].to_text(), "/path/to/charlie");
    assert_eq!(delegate.directories[3].to_text(), "/path/to/zebra");
}

#[test]
fn test_path_expansion() {
    if let Some(home_dir) = dirs::home_dir() {
        if let Some(home_str) = home_dir.to_str() {
            let expand = |path: &str| expand_path(path);

            assert_eq!(expand("~/projects"), format!("{}/projects", home_str));
            assert_eq!(expand("~"), home_str);
            assert_eq!(expand("~/"), format!("{}/", home_str));
            assert_eq!(
                expand("~/Documents/code"),
                format!("{}/Documents/code", home_str)
            );
            assert_eq!(
                expand("/some/path~/not_expanded"),
                "/some/path~/not_expanded"
            );
        }
    }

    if let Some(home_dir) = dirs::home_dir() {
        if let Some(home_str) = home_dir.to_str() {
            let expand = |path: &str| expand_path(path);

            assert_eq!(expand("$HOME/projects"), format!("{}/projects", home_str));
            assert_eq!(expand("/some/path"), "/some/path");
        }
    }

    if let Ok(user) = shellexpand::env("$USER") {
        assert_eq!(expand_path("/home/$USER/git"), format!("/home/{}/git", user));
    }
}

#[test]
fn equal_names_are_both_kept() {
    let mut delegate = delegate(false, &[]);
    delegate.add_directory(DirectoryPath::from_text("/a/same"));
    delegate.add_directory(DirectoryPath::from_text("/b/other"));
    delegate.add_directory(DirectoryPath::from_text("/b/same"));
    delegate.add_directory(DirectoryPath::from_text("/c/same"));
    let names: Vec<String> = delegate.directories.iter().map(|d| d.listed_name()).collect();
    assert_eq!(names, vec!["other", "same", "same", "same"]);
    let mut paths: Vec<String> = delegate.directories.iter().map(|d| d.to_text()).collect();
    paths.sort();
    assert_eq!(paths, vec!["/a/same", "/b/other", "/b/same", "/c/same"]);
}

#[test]
fn names_decide_the_order_and_not_parents() {
    let mut delegate = delegate(false, &[]);
    for path in ["/z/a", "/a/z", "/", "/m/ab", "/q/B"] {
        delegate.add_directory(DirectoryPath::from_text(path));
    }
    let paths: Vec<String> = delegate.directories.iter().map(|d| d.to_text()).collect();
    assert_eq!(paths, vec!["/", "/q/B", "/z/a", "/m/ab", "/a/z"]);
}

#[test]
fn set_directories_takes_the_list_as_it_is() {
    let mut delegate = delegate(false, &[]);
    delegate.add_directory(DirectoryPath::from_text("/x"));
    delegate.set_directories(vec![
        DirectoryPath::from_text("/b"),
        DirectoryPath::from_text("/a"),
    ]);
    let paths: Vec<String> = delegate.directories.iter().map(|d| d.to_text()).collect();
    assert_eq!(paths, vec!["/b", "/a"]);
    delegate.add_directory(DirectoryPath::from_text("/c"));
    assert_eq!(delegate.directories.len(), 3);
}

#[test]
fn default_action_scans_git_below_home() {
    let action = OpenGitDirectory::new(None, false);
    assert_eq!(action.directories, vec!["~/git".to_string()]);
    assert!(!action.create_new_window);
    let action = OpenGitDirectory::new(Some(vec!["$HOME/dev".to_string()]), true);
    assert_eq!(action.directories, vec!["$HOME/dev".to_string()]);
    assert!(action.create_new_window);
}

#[test]
fn action_cycles_or_opens() {
    let action = OpenGitDirectory::new(None, true);
    assert!(matches!(action.respond(true), Response::CycleSelection));
    let action = OpenGitDirectory::new(None, true);
    match action.respond(false) {
        Response::Open { create_new_window, directories } => {
            assert!(create_new_window);
            assert_eq!(directories, vec!["~/git".to_string()]);
        }
        Response::CycleSelection => panic!("the picker is not open"),
    }
}

#[test]
fn scan_steps() {
    assert!(matches!(scan_step(ScanEvent::Started(true)), ScanAction::Receive));
    assert!(matches!(scan_step(ScanEvent::Started(false)), ScanAction::Stop));
    assert!(matches!(scan_step(ScanEvent::Finished), ScanAction::Stop));
    assert!(matches!(scan_step(ScanEvent::TakenIn(true)), ScanAction::Receive));
    assert!(matches!(scan_step(ScanEvent::TakenIn(false)), ScanAction::Stop));
    match scan_step(ScanEvent::Found(DirectoryPath::from_text("/a"))) {
        ScanAction::TakeIn(directory) => assert_eq!(directory.to_text(), "/a"),
        _ => panic!("a directory is taken in"),
    }
}

#[test]
fn placeholder_names_the_keys() {
    assert_eq!(
        delegate(false, &[]).placeholder_text("enter", "cmd-enter"),
        "Open git directory - enter reuses this window, cmd-enter opens a new one"
    );
    assert_eq!(
        delegate(true, &[]).placeholder_text("enter", "cmd-enter"),
        "Open git directory - cmd-enter reuses this window, enter opens a new one"
    );
}

#[test]
fn request_offers_the_names() {
    let mut delegate = delegate(false, &[]);
    delegate.set_directories(vec![
        DirectoryPath::from_text("/x/beta/"),
        DirectoryPath::from_text("/"),
        DirectoryPath { bytes: vec![b'/', b'a', 0xff] },
    ]);
    let request = delegate.match_request(" \t Be");
    assert_eq!(request.query, "Be");
    assert!(request.smart_case);
    assert!(request.penalize_length);
    assert_eq!(request.max_results, 100);
    let ids: Vec<usize> = request.candidates.iter().map(|c| c.id).collect();
    assert_eq!(ids, vec![0, 1, 2]);
    let names: Vec<&str> = request.candidates.iter().map(|c| c.string.as_str()).collect();
    assert_eq!(names, vec!["beta", "/", "a\u{fffd}"]);
    assert!(!delegate.match_request("be ").smart_case);
    assert_eq!(delegate.match_request("be ").query, "be ");
    assert!(delegate.match_request("\u{c4}").smart_case);
    assert!(!delegate.match_request("\u{e4}").smart_case);
}

#[test]
fn leading_white_space_makes_no_difference() {
    let delegate = delegate(false, &[]);
    let typed = delegate.match_request(" \u{a0}\tZed x ");
    let plain = delegate.match_request("Zed x ");
    assert_eq!(typed.query, "Zed x ");
    assert_eq!(typed.query, plain.query);
    assert_eq!(typed.smart_case, plain.smart_case);
}

#[test]
fn first_of_the_best_is_selected() {
    let mut delegate = delegate(false, &[]);
    for path in ["/a", "/b", "/c", "/d"] {
        delegate.add_directory(DirectoryPath::from_text(path));
    }
    delegate.update_matches(vec![found(3, 0.25), found(0, 0.75), found(1, 0.75), found(2, 0.5)]);
    assert_eq!(delegate.match_count(), 4);
    assert_eq!(delegate.selected_index(), 1);
    let ids: Vec<usize> = delegate.matches.iter().map(|m| m.candidate_id).collect();
    assert_eq!(ids, vec![3, 0, 1, 2]);
    delegate.update_matches(vec![found(0, 1.0), found(1, f64::NAN), found(2, f64::NAN)]);
    assert_eq!(delegate.selected_index(), 1);
    delegate.update_matches(vec![found(0, -0.0), found(1, 0.0)]);
    assert_eq!(delegate.selected_index(), 0);
    delegate.update_matches(vec![]);
    assert_eq!(delegate.selected_index(), 0);
    delegate.set_selected_index(7);
    assert_eq!(delegate.selected_index(), 7);
}

#[test]
fn confirming_chooses_directory_and_window() {
    for create_new_window in [false, true] {
        let mut delegate = delegate(create_new_window, &[]);
        delegate.add_directory(DirectoryPath::from_text("/a"));
        delegate.add_directory(DirectoryPath::from_text("/b"));
        assert!(delegate.confirm(false, true).is_none());
        delegate.update_matches(vec![found(1, 0.5), found(0, 0.1)]);
        assert!(delegate.confirm(false, false).is_none());
        let primary = delegate.confirm(false, true).unwrap();
        assert_eq!(primary.path.to_text(), "/b");
        assert_eq!(primary.replace_current_window, !create_new_window);
        let secondary = delegate.confirm(true, true).unwrap();
        assert_eq!(secondary.path.to_text(), "/b");
        assert_eq!(secondary.replace_current_window, create_new_window);
        delegate.set_selected_index(1);
        assert_eq!(delegate.confirm(false, true).unwrap().path.to_text(), "/a");
        delegate.set_selected_index(2);
        assert!(delegate.confirm(false, true).is_none());
    }
}

#[test]
fn texts_for_no_matches() {
    assert_eq!(
        delegate(false, &[]).no_matches_text().unwrap(),
        "No scan directories specified"
    );
    assert_eq!(
        delegate(false, &["/one"]).no_matches_text().unwrap(),
        "No git directories found in /one (create the directory and clone some repositories)"
    );
    assert_eq!(
        delegate(false, &["/one", "/two", "/three"]).no_matches_text().unwrap(),
        "No git directories found in /one, /two, /three (create the directories and clone some repositories)"
    );
    let mut delegate = delegate(false, &["/one"]);
    delegate.add_directory(DirectoryPath::from_text("/one/repo"));
    assert_eq!(delegate.no_matches_text().unwrap(), "No matches");
}

#[test]
fn rows_show_name_and_path() {
    let mut delegate = delegate(false, &[]);
    delegate.add_directory(DirectoryPath::from_text("/x/repo"));
    delegate.update_matches(vec![found(0, 0.5), found(9, 0.4)]);
    let row = delegate.render_match(0, true).unwrap();
    assert_eq!(row.index, 0);
    assert!(row.selected);
    assert_eq!(row.name, "repo");
    assert_eq!(row.path, "/x/repo");
    assert!(delegate.render_match(1, false).is_none());
    assert!(delegate.render_match(2, false).is_none());
    delegate.set_directories(vec![DirectoryPath::from_text("/..")]);
    let row = delegate.render_match(0, false).unwrap();
    assert!(!row.selected);
    assert_eq!(row.name, "/..");
    assert_eq!(row.path, "/..");
}

#[test]
fn directories_that_cannot_be_expanded() {
    assert!(GitDirectoriesDelegate::try_new(false, vec!["$\u{e9}".to_string()]).is_none());
    assert!(GitDirectoriesDelegate::try_new(
        false,
        vec!["/a".to_string(), "/$\u{e9}/b".to_string()]
    )
    .is_none());
}

#[test]
fn directories_that_fail_ahead_of_an_odd_name_are_kept() {
    let delegate = GitDirectoriesDelegate::try_new(
        true,
        vec!["$$a".to_string(), "$NO_SUCH_VARIABLE_IS_SET/$\u{e9}".to_string()],
    )
    .unwrap();
    let paths: Vec<String> = delegate.scan_directories.iter().map(|d| d.to_text()).collect();
    assert_eq!(paths, vec!["$a", "$NO_SUCH_VARIABLE_IS_SET/$\u{e9}"]);
    assert!(delegate.create_new_window);
    assert!(delegate.directories.is_empty());
    assert!(delegate.matches.is_empty());
    assert_eq!(delegate.selected_index(), 0);
}

#[test]
fn directories_may_be_added_in_either_order() {
    for (one, other) in [("/x/b", "/y/d"), ("/x/c", "/y/a"), ("/", "/x/z"), ("/x/aa", "/y/a")] {
        let mut lists: Vec<Vec<String>> = Vec::new();
        for added in [[one, other], [other, one]] {
            let mut delegate = delegate(false, &[]);
            for path in ["/p/c", "/p/a", "/p/e"] {
                delegate.add_directory(DirectoryPath::from_text(path));
            }
            for path in added {
                delegate.add_directory(DirectoryPath::from_text(path));
            }
            lists.push(delegate.directories.iter().map(|d| d.to_text()).collect());
        }
        assert_eq!(lists[0], lists[1]);
        assert_eq!(lists[0].len(), 5);
    }
}
