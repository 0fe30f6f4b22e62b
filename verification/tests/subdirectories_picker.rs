use directory_pickers::matching::StringMatch;
use directory_pickers::path::DirectoryPath;
use directory_pickers::score::Score;
use directory_pickers::subdirectories_picker::{
    choose_bases, failure_title, opening_start, opening_step, ListingEntry, OpenSubdirectories,
    OpeningAction, OpeningEvent, OpeningState, Response, SubdirectoriesDelegate,
};

fn delegate(create_new_window: bool, bases: &[&str]) -> SubdirectoriesDelegate {
    let bases = bases.iter().map(|d| d.to_string()).collect();
    SubdirectoriesDelegate::new(create_new_window, Some(bases))
}

fn readable(path: &str, is_directory: bool) -> ListingEntry {
    ListingEntry::Readable { path: DirectoryPath::from_text(path), is_directory }
}

fn found(candidate_id: usize, score: f64) -> StringMatch {
    StringMatch {
        candidate_id,
        score: Score { bits: score.to_bits() },
        positions: vec![1, 4],
        string: String::new(),
    }
}

fn texts(paths: &Vec<DirectoryPath>) -> Vec<String> {
    paths.iter().map(|p| p.to_text()).collect()
}

#[test]
fn given_bases_are_trimmed() {
    let all = "\u{9}\u{a}\u{b}\u{c}\u{d}\u{20}\u{85}\u{a0}\u{1680}\u{2000}\u{200a}\u{2028}\u{2029}\u{202f}\u{205f}\u{3000}";
    let given = Some(vec![
        " /a ".to_string(),
        format!("{}/b c{}", all, all),
        "\u{200b}/d".to_string(),
        all.to_string(),
    ]);
    let bases = choose_bases(&given, Some(b"/home/me".to_vec()));
    assert_eq!(texts(&bases), vec!["/a", "/b c", "\u{200b}/d", ""]);
}

#[test]
fn exactly_white_space_is_trimmed() {
    for c in '\u{0}'..=char::MAX {
        let white = matches!(
            c,
            '\u{9}'..='\u{d}'
                | '\u{20}'
                | '\u{85}'
                | '\u{a0}'
                | '\u{1680}'
                | '\u{2000}'..='\u{200a}'
                | '\u{2028}'
                | '\u{2029}'
                | '\u{202f}'
                | '\u{205f}'
                | '\u{3000}'
        );
        let bases = choose_bases(&Some(vec![c.to_string()]), None);
        assert_eq!(bases[0].bytes.is_empty(), white, "{:?}", c);
    }
}

#[test]
fn home_or_root_is_the_base_otherwise() {
    assert_eq!(texts(&choose_bases(&None, Some(b"/home/me".to_vec()))), vec!["/home/me"]);
    assert_eq!(texts(&choose_bases(&None, None)), vec!["/"]);
    assert!(choose_bases(&Some(vec![]), Some(b"/home/me".to_vec())).is_empty());
}

#[test]
fn new_picker_starts_at_home() {
    let delegate = SubdirectoriesDelegate::new(true, None);
    let home = dirs::home_dir().map(|d| d.display().to_string()).unwrap_or("/".to_string());
    assert_eq!(texts(&delegate.base_directories), vec![home]);
    assert!(delegate.subdirectories.is_empty());
    assert!(delegate.matches.is_empty());
    assert_eq!(delegate.selected_match_index, 0);
    assert!(delegate.create_new_window);
}

#[test]
fn subdirectories_are_loaded_from_all_bases() {
    let mut delegate = delegate(false, &["/a", "/b", "/c"]);
    assert_eq!(texts(&delegate.base_directories), vec!["/a", "/b", "/c"]);
    delegate.load_subdirectories(vec![
        Some(vec![
            readable("/a/z", true),
            readable("/a/file", false),
            ListingEntry::Unreadable,
            readable("/a/.hidden", true),
        ]),
        None,
        Some(vec![readable("/c/y", true)]),
    ]);
    assert_eq!(texts(&delegate.subdirectories), vec!["/a/z", "/a/.hidden", "/c/y"]);
    delegate.load_subdirectories(vec![Some(vec![readable("/d/x", true)])]);
    assert_eq!(texts(&delegate.subdirectories), vec!["/a/z", "/a/.hidden", "/c/y", "/d/x"]);
}

#[test]
fn subdirectories_action_cycles_or_opens() {
    let action = OpenSubdirectories { create_new_window: true, base_directories: None };
    assert!(matches!(action.respond(true), Response::CycleSelection));
    let action = OpenSubdirectories {
        create_new_window: true,
        base_directories: Some(vec!["/a".to_string()]),
    };
    match action.respond(false) {
        Response::Open { create_new_window, base_directories } => {
            assert!(create_new_window);
            assert_eq!(base_directories, Some(vec!["/a".to_string()]));
        }
        Response::CycleSelection => panic!("the picker is not open"),
    }
}

#[test]
fn subdirectories_placeholder_names_the_keys() {
    assert_eq!(
        delegate(false, &[]).placeholder_text("enter", "cmd-enter"),
        "enter reuses this window, cmd-enter opens a new one"
    );
    assert_eq!(
        delegate(true, &[]).placeholder_text("enter", "cmd-enter"),
        "cmd-enter reuses this window, enter opens a new one"
    );
}

#[test]
fn subdirectories_request_offers_valid_names() {
    let mut delegate = delegate(false, &["/a"]);
    delegate.load_subdirectories(vec![Some(vec![
        readable("/a/one", true),
        ListingEntry::Readable {
            path: DirectoryPath { bytes: vec![b'/', b'a', b'/', 0xff] },
            is_directory: true,
        },
        readable("/", true),
    ])]);
    let request = delegate.match_request("\u{3000}on E");
    assert_eq!(request.query, "on E");
    assert!(request.smart_case);
    assert!(request.penalize_length);
    assert_eq!(request.max_results, 100);
    let names: Vec<&str> = request.candidates.iter().map(|c| c.string.as_str()).collect();
    assert_eq!(names, vec!["one", "", ""]);
    let ids: Vec<usize> = request.candidates.iter().map(|c| c.id).collect();
    assert_eq!(ids, vec![0, 1, 2]);
}

#[test]
fn matches_are_listed_best_first() {
    let mut delegate = delegate(false, &["/a"]);
    delegate.load_subdirectories(vec![Some(vec![
        readable("/a/x", true),
        readable("/a/y", true),
        readable("/a/z", true),
    ])]);
    delegate.update_matches(vec![found(2, 0.5), found(0, 0.25), found(1, 0.5)]);
    let ids: Vec<usize> = delegate.matches.iter().map(|m| m.candidate_id).collect();
    assert_eq!(ids, vec![1, 2, 0]);
    assert!(ids.iter().all(|id| *id < delegate.subdirectories.len()));
    assert_eq!(delegate.selected_index(), 0);
    assert_eq!(delegate.match_count(), 3);
    let chosen = delegate.confirm(false, true).unwrap();
    assert_eq!(chosen.path.to_text(), "/a/y");
    assert!(chosen.replace_current_window);
    let chosen = delegate.confirm(true, true).unwrap();
    assert!(!chosen.replace_current_window);
    assert!(delegate.confirm(false, false).is_none());
    delegate.set_selected_index(3);
    assert!(delegate.confirm(false, true).is_none());
    let row = delegate.render_match(2, true).unwrap();
    assert_eq!(row.index, 2);
    assert!(row.selected);
    assert_eq!(row.name, "x");
    assert_eq!(row.highlight_positions, vec![1, 4]);
    assert_eq!(row.tooltip, "/a/x");
    assert!(delegate.render_match(3, true).is_none());
    delegate.update_matches(vec![found(7, 0.5)]);
    assert!(delegate.render_match(0, true).is_none());
}

#[test]
fn subdirectories_texts_for_no_matches() {
    assert_eq!(
        delegate(false, &[]).no_matches_text().unwrap(),
        "No subdirectories found in: "
    );
    let mut delegate = delegate(false, &["/a", "/b"]);
    assert_eq!(delegate.no_matches_text().unwrap(), "No subdirectories found in: /a, /b");
    delegate.load_subdirectories(vec![Some(vec![readable("/a/x", true)])]);
    assert_eq!(delegate.no_matches_text().unwrap(), "No matches");
}

#[test]
fn opening_in_the_current_window_asks_first() {
    let (state, action) = opening_start(true);
    assert!(matches!(state, OpeningState::AwaitingClose));
    assert!(matches!(action, OpeningAction::PrepareToClose));
    let (opening, action) = opening_step(state, OpeningEvent::CloseAnswered(true));
    assert!(matches!(opening, OpeningState::Opening));
    assert!(matches!(action, OpeningAction::Open { replace_current_window: true }));
    let (finished, action) = opening_step(opening, OpeningEvent::Opened);
    assert!(matches!(finished, OpeningState::Finished));
    assert!(matches!(action, OpeningAction::Nothing));
    let (kept, action) = opening_step(state, OpeningEvent::CloseAnswered(false));
    assert!(matches!(kept, OpeningState::Finished));
    assert!(matches!(action, OpeningAction::Nothing));
    for state in [OpeningState::AwaitingClose, OpeningState::Opening] {
        let (failed, action) = opening_step(state, OpeningEvent::Failed);
        assert!(matches!(failed, OpeningState::Finished));
        assert!(matches!(action, OpeningAction::ReportFailure));
    }
    let (_, action) = opening_step(OpeningState::Finished, OpeningEvent::CloseAnswered(true));
    assert!(matches!(action, OpeningAction::Nothing));
    assert_eq!(failure_title(), "Failed to open project");
}

#[test]
fn a_directory_is_opened_once() {
    for replace in [false, true] {
        let (mut state, action) = opening_start(replace);
        let mut opened = matches!(action, OpeningAction::Open { .. }) as usize;
        for event in [
            OpeningEvent::CloseAnswered(true),
            OpeningEvent::CloseAnswered(true),
            OpeningEvent::Opened,
            OpeningEvent::CloseAnswered(true),
            OpeningEvent::Failed,
        ] {
            let (next, action) = opening_step(state, event);
            if let OpeningAction::Open { replace_current_window } = action {
                opened += 1;
                assert!(replace_current_window);
                assert!(replace);
            }
            state = next;
        }
        assert_eq!(opened, 1);
    }
}

#[test]
fn opening_in_a_new_window_asks_nothing() {
    let (state, action) = opening_start(false);
    assert!(matches!(state, OpeningState::Opening));
    assert!(matches!(action, OpeningAction::Open { replace_current_window: false }));
}
