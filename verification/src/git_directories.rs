//! The picker of repositories and projects below a set of scanned directories.

use crate::expansion::{
    all_expandable, all_expanded, alphanumeric_property, are_expandable,
    ascii_names_can_be_looked_up, before_odd, expand_directories, expandable, is_outcome,
    meets_odd_name, odd_names_cannot_be_looked_up, one_meets_odd_name,
    path_of_plain_text_is_as_spelled, path_starts_at_home, paths_are_made_of_the_texts,
    plain_text_has_an_outcome, try_expand_directories,
};
use crate::matching::{
    best_has_the_greatest_pattern, best_match, is_best, match_request, name_candidates,
    request_is_for_the_query, scores_are_unsigned, MatchRequest, StringMatch, StringMatchCandidate,
};
use crate::order::{
    at_most_one_named, comes_before, find_place, insertion_keeps_order, is_place_for,
    names_are_comparable, place_moves_with_insertion, sorted_by_name,
    sorted_directories_stand_in_byte_order,
};
use crate::path::{all_shown, list_shown, shown_name, sort_key, DirectoryPath};
use crate::subdirectories_picker::is_home;
use crate::text::{is_white_space, joined, shown, uppercase_property};
use crate::window::{
    key_hint, key_hint_text, replaces_current_window, replaces_window, OpenDirectory,
};
use vstd::prelude::*;

verus! {

/// The directory that is scanned where none is given.
pub open spec fn default_directory() -> Seq<char> {
    "~/git"@
}

/// The action that opens the picker.
pub struct OpenGitDirectory {
    /// The directories to scan, `~` and variables not yet expanded.
    pub directories: Vec<String>,
    pub create_new_window: bool,
}

impl OpenGitDirectory {
    /// The action as it is bound to a key: it scans `~/git` where no directories are given.
    pub fn new(directories: Option<Vec<String>>, create_new_window: bool) -> (action: Self)
        ensures
            directories matches Some(given) ==> action.directories == given,
            directories is None ==> action.directories@.len() == 1 && action.directories@[0]@
                == default_directory(),
            directories is None ==> action.directories@[0]@ == "~/git"@,
            action.create_new_window == create_new_window,
    {
        let directories = match directories {
            Some(given) => given,
            None => {
                let mut fallback: Vec<String> = Vec::new();
                fallback.push("~/git".to_owned());
                fallback
            },
        };
        OpenGitDirectory { directories, create_new_window }
    }

    /// What the action does, given whether the picker is open already.
    pub fn respond(self, picker_is_open: bool) -> (response: Response)
        ensures
            response == (if picker_is_open {
                Response::CycleSelection
            } else {
                Response::Open {
                    create_new_window: self.create_new_window,
                    directories: self.directories,
                }
            }),
    {
        if picker_is_open {
            Response::CycleSelection
        } else {
            Response::Open {
                create_new_window: self.create_new_window,
                directories: self.directories,
            }
        }
    }
}

/// What the action that opens the picker does.
pub enum Response {
    /// The picker is open: select its next entry.
    CycleSelection,
    /// Open the picker.
    Open { create_new_window: bool, directories: Vec<String> },
}

/// What happens while the picker waits for the scan.
pub enum ScanEvent {
    /// The scan was started, or could not be.
    Started(bool),
    /// The scan has come across a directory to list.
    Found(DirectoryPath),
    /// The scan is over.
    Finished,
    /// The picker has taken in a directory, or is there no longer.
    TakenIn(bool),
}

/// What to do next about the scan.
pub enum ScanAction {
    /// Wait for the next directory.
    Receive,
    /// Add a directory to the list and match the query anew.
    TakeIn(DirectoryPath),
    /// Wait no longer.
    Stop,
}

/// What to do about `event`.
pub fn scan_step(event: ScanEvent) -> (action: ScanAction)
    ensures
        action == (match event {
            ScanEvent::Started(running) => if running {
                ScanAction::Receive
            } else {
                ScanAction::Stop
            },
            ScanEvent::Found(directory) => ScanAction::TakeIn(directory),
            ScanEvent::Finished => ScanAction::Stop,
            ScanEvent::TakenIn(picker_is_there) => if picker_is_there {
                ScanAction::Receive
            } else {
                ScanAction::Stop
            },
        }),
{
    match event {
        ScanEvent::Started(true) => ScanAction::Receive,
        ScanEvent::Started(false) => ScanAction::Stop,
        ScanEvent::Found(directory) => ScanAction::TakeIn(directory),
        ScanEvent::Finished => ScanAction::Stop,
        ScanEvent::TakenIn(true) => ScanAction::Receive,
        ScanEvent::TakenIn(false) => ScanAction::Stop,
    }
}

/// Whether `after` is `before` with `directory` put in: somewhere, and in a place for its name if
/// `before` is sorted.
pub open spec fn is_added(
    before: Seq<DirectoryPath>,
    directory: DirectoryPath,
    after: Seq<DirectoryPath>,
) -> bool {
    exists|position: int|
        0 <= position <= before.len() && after == #[trigger] before.insert(position, directory) && (
        sorted_by_name(before) ==> is_place_for(before, sort_key(directory@), position))
}

/// Directories that are added one after another to an empty list stand in it in the order of their
/// names, each as often as it was added, and no others do. Here `lists` holds the list before each
/// of `found` was added, and behind these the list at the end.
pub proof fn found_directories_are_listed_in_order(
    found: Seq<DirectoryPath>,
    lists: Seq<Seq<DirectoryPath>>,
)
    requires
        lists.len() == found.len() + 1,
        lists[0].len() == 0,
        forall|i: int|
            0 <= i < found.len() ==> is_added(lists[i], #[trigger] found[i], lists[i + 1]),
    ensures
        sorted_by_name(lists.last()),
        lists.last().to_multiset() == found.to_multiset(),
    decreases found.len(),
{
    broadcast use vstd::seq_lib::group_to_multiset_ensures;

    if found.len() == 0 {
        assert(lists.last() == found);
    } else {
        let n = found.len() - 1;
        assert forall|i: int| 0 <= i < n implies is_added(
            lists.drop_last()[i],
            #[trigger] found.drop_last()[i],
            lists.drop_last()[i + 1],
        ) by {
            assert(found[i] == found.drop_last()[i]);
        }
        found_directories_are_listed_in_order(found.drop_last(), lists.drop_last());
        let before = lists[n];
        let directory = found[n];
        assert(is_added(before, directory, lists[n + 1]));
        let position = choose|position: int|
            0 <= position <= before.len() && lists[n + 1] == #[trigger] before.insert(
                position,
                directory,
            ) && (sorted_by_name(before) ==> is_place_for(before, sort_key(directory@), position));
        insertion_keeps_order(before, directory, position);
        vstd::seq_lib::to_multiset_insert(before, position, directory);
        assert(found == found.drop_last().push(directory));
    }
}

spec fn is_added_at(
    before: Seq<DirectoryPath>,
    directory: DirectoryPath,
    after: Seq<DirectoryPath>,
    position: int,
) -> bool {
    &&& 0 <= position <= before.len()
    &&& after == before.insert(position, directory)
    &&& is_place_for(before, sort_key(directory@), position)
}

proof fn lemma_place_of_added(
    before: Seq<DirectoryPath>,
    directory: DirectoryPath,
    after: Seq<DirectoryPath>,
) -> (position: int)
    requires
        sorted_by_name(before),
        is_added(before, directory, after),
    ensures
        is_added_at(before, directory, after, position),
        sorted_by_name(after),
{
    let position = choose|position: int|
        0 <= position <= before.len() && after == #[trigger] before.insert(position, directory) && (
        sorted_by_name(before) ==> is_place_for(before, sort_key(directory@), position));
    insertion_keeps_order(before, directory, position);
    position
}

proof fn lemma_insertions_commute(
    before: Seq<DirectoryPath>,
    first: DirectoryPath,
    p: int,
    second: DirectoryPath,
    q: int,
)
    requires
        0 <= p <= q <= before.len(),
    ensures
        before.insert(p, first).insert(q + 1, second) == before.insert(q, second).insert(p, first),
{
}

/// Two directories of different names may be added in either order to a list in the order of the
/// names, if at most one directory in it bears each of the two names: the list is the same at the
/// end. Here `with_one` and `with_other` are the lists in between.
pub proof fn order_of_adding_makes_no_difference(
    before: Seq<DirectoryPath>,
    one: DirectoryPath,
    other: DirectoryPath,
    with_one: Seq<DirectoryPath>,
    other_last: Seq<DirectoryPath>,
    with_other: Seq<DirectoryPath>,
    one_last: Seq<DirectoryPath>,
)
    requires
        sorted_by_name(before),
        sort_key(one@) != sort_key(other@),
        at_most_one_named(before, sort_key(one@)),
        at_most_one_named(before, sort_key(other@)),
        is_added(before, one, with_one),
        is_added(with_one, other, other_last),
        is_added(before, other, with_other),
        is_added(with_other, one, one_last),
    ensures
        other_last == one_last,
{
    let p = lemma_place_of_added(before, one, with_one);
    let q = lemma_place_of_added(before, other, with_other);
    let q_last = lemma_place_of_added(with_one, other, other_last);
    let p_last = lemma_place_of_added(with_other, one, one_last);
    place_moves_with_insertion(before, one, p, sort_key(other@), q, q_last);
    place_moves_with_insertion(before, other, q, sort_key(one@), p, p_last);
    names_are_comparable(sort_key(one@), sort_key(other@));
    if comes_before(sort_key(one@), sort_key(other@)) {
        lemma_insertions_commute(before, one, p, other, q);
    } else {
        lemma_insertions_commute(before, other, q, one, p);
    }
}

/// An entry of the list as it is drawn.
pub struct DirectoryRow {
    pub index: usize,
    pub selected: bool,
    pub name: String,
    pub path: String,
}

/// The state of the picker.
pub struct GitDirectoriesDelegate {
    /// The directories that the scan has come across.
    pub directories: Vec<DirectoryPath>,
    pub selected_match_index: usize,
    /// The directories that match the query, each named by its place in `directories`.
    pub matches: Vec<StringMatch>,
    pub create_new_window: bool,
    pub scan_directories: Vec<DirectoryPath>,
}

impl GitDirectoriesDelegate {
    /// The names that the query is matched against.
    pub open spec fn names(self) -> Seq<Seq<char>> {
        Seq::new(self.directories@.len(), |i: int| shown_name(self.directories@[i]@))
    }

    /// The selected match, if there is one.
    pub open spec fn selected(self) -> Option<StringMatch> {
        if self.selected_match_index < self.matches@.len() {
            Some(self.matches@[self.selected_match_index as int])
        } else {
            None
        }
    }

    /// Whether the selected match, if there is one, names a directory.
    pub open spec fn selection_is_valid(self) -> bool {
        self.selected() matches Some(hit) ==> hit.candidate_id < self.directories@.len()
    }

    /// The text that is shown where nothing matches.
    pub open spec fn empty_text(self) -> Seq<char> {
        if self.directories@.len() > 0 {
            "No matches"@
        } else if self.scan_directories@.len() == 0 {
            "No scan directories specified"@
        } else if self.scan_directories@.len() == 1 {
            "No git directories found in "@ + shown(self.scan_directories@[0]@)
                + " (create the directory and clone some repositories)"@
        } else {
            "No git directories found in "@ + joined(all_shown(self.scan_directories@), ", "@)
                + " (create the directories and clone some repositories)"@
        }
    }

    /// A picker that has found nothing yet in the directories given as `scan_directories`.
    pub fn new(create_new_window: bool, scan_directories: Vec<String>) -> (delegate: Self)
        requires
            all_expandable(scan_directories@),
        ensures
            delegate.directories@.len() == 0,
            delegate.selected_match_index == 0,
            delegate.matches@.len() == 0,
            delegate.create_new_window == create_new_window,
            all_expanded(scan_directories@, delegate.scan_directories@),
    {
        GitDirectoriesDelegate {
            directories: Vec::new(),
            selected_match_index: 0,
            matches: Vec::new(),
            create_new_window,
            scan_directories: expand_directories(&scan_directories),
        }
    }

    /// A picker as `new` makes it, or nothing where the expansion of one of the directories comes to a
    /// name that cannot be looked up.
    pub fn try_new(create_new_window: bool, scan_directories: Vec<String>) -> (delegate: Option<
        Self,
    >)
        ensures
            all_expandable(scan_directories@) ==> delegate is Some,
            delegate is None ==> one_meets_odd_name(scan_directories@),
            delegate matches Some(d) ==> {
                &&& d.directories@.len() == 0
                &&& d.selected_match_index == 0
                &&& d.matches@.len() == 0
                &&& d.create_new_window == create_new_window
                &&& all_expanded(scan_directories@, d.scan_directories@)
            },
    {
        if are_expandable(&scan_directories) {
            return Some(GitDirectoriesDelegate::new(create_new_window, scan_directories));
        }
        match try_expand_directories(&scan_directories) {
            Some(expanded) => Some(
                GitDirectoriesDelegate {
                    directories: Vec::new(),
                    selected_match_index: 0,
                    matches: Vec::new(),
                    create_new_window,
                    scan_directories: expanded,
                },
            ),
            None => None,
        }
    }

    /// Lists `directories` and no others.
    pub fn set_directories(&mut self, directories: Vec<DirectoryPath>)
        ensures
            *final(self) == (GitDirectoriesDelegate { directories, ..*old(self) }),
    {
        self.directories = directories;
    }

    /// Puts one more directory into the list, in the order of the names.
    pub fn add_directory(&mut self, directory: DirectoryPath)
        ensures
            is_added(old(self).directories@, directory, final(self).directories@),
            exists|position: int|
                0 <= position <= old(self).directories@.len() && final(self).directories@
                    == #[trigger] old(self).directories@.insert(position, directory),
            sorted_by_name(old(self).directories@) ==> sorted_by_name(final(self).directories@),
            old(self).selection_is_valid() ==> final(self).selection_is_valid(),
            *final(self) == (GitDirectoriesDelegate {
                directories: final(self).directories,
                ..*old(self)
            }),
    {
        let key = directory.key();
        let position = find_place(&self.directories, &key);
        self.directories.insert(position, directory);
        proof {
            let before = old(self).directories@;
            assert(self.directories@ == before.insert(position as int, directory));
            if sorted_by_name(before) {
                insertion_keeps_order(before, directory, position as int);
            }
        }
    }

    /// The hint that is shown in the empty query. `confirm` and `secondary_confirm` are the keys
    /// of the two ways to confirm.
    pub fn placeholder_text(&self, confirm: &str, secondary_confirm: &str) -> (text: String)
        ensures
            text@ == "Open git directory - "@ + key_hint(
                self.create_new_window,
                confirm@,
                secondary_confirm@,
            ),
    {
        key_hint_text("Open git directory - ", self.create_new_window, confirm, secondary_confirm)
    }

    /// How many directories match.
    pub fn match_count(&self) -> (count: usize)
        ensures
            count == self.matches@.len(),
    {
        self.matches.len()
    }

    /// The place of the selected match.
    pub fn selected_index(&self) -> (index: usize)
        ensures
            index == self.selected_match_index,
    {
        self.selected_match_index
    }

    /// Selects the match at `index`.
    pub fn set_selected_index(&mut self, index: usize)
        ensures
            *final(self) == (GitDirectoriesDelegate { selected_match_index: index, ..*old(self) }),
    {
        self.selected_match_index = index;
    }

    /// What the fuzzy matcher is asked about `query`.
    pub fn match_request(&self, query: &str) -> (request: MatchRequest)
        ensures
            request.asks_for(query@),
            request.offers(self.names()),
            request.candidates@.len() == self.directories@.len(),
            forall|i: int|
                0 <= i < self.directories@.len() ==> (#[trigger] request.candidates@[i]).id == i
                    && request.candidates@[i].string@ == shown_name(self.directories@[i]@),
    {
        let mut candidates: Vec<StringMatchCandidate> = Vec::new();
        let mut i: usize = 0;
        while i < self.directories.len()
            invariant
                i <= self.directories@.len(),
                candidates@.len() == i,
                forall|j: int|
                    0 <= j < i ==> (#[trigger] candidates@[j]).id == j
                        && candidates@[j].string@ == self.names()[j],
            decreases self.directories@.len() - i,
        {
            let string = self.directories[i].listed_name();
            candidates.push(StringMatchCandidate { id: i, string });
            i += 1;
        }
        match_request(candidates, query)
    }

    /// Takes in what the fuzzy matcher has found and selects the first of the best matches.
    pub fn update_matches(&mut self, found: Vec<StringMatch>)
        ensures
            is_best(found@, final(self).selected_match_index as int),
            *final(self) == (GitDirectoriesDelegate {
                matches: found,
                selected_match_index: final(self).selected_match_index,
                ..*old(self)
            }),
            name_candidates(found@, old(self).directories@.len())
                ==> final(self).selection_is_valid(),
    {
        self.selected_match_index = best_match(&found);
        self.matches = found;
    }

    /// What the user has chosen by confirming in the primary or the secondary way. It is nothing
    /// where no match is selected, or where the workspace is there no longer.
    pub fn confirm(&self, secondary: bool, workspace_is_there: bool) -> (chosen: Option<
        OpenDirectory,
    >)
        requires
            workspace_is_there ==> self.selection_is_valid(),
        ensures
            chosen is Some <==> workspace_is_there && self.selected() is Some,
            chosen is Some <==> workspace_is_there && self.selected_match_index
                < self.matches@.len(),
            chosen matches Some(open) ==> {
                &&& open.path@
                    == self.directories@[self.matches@[self.selected_match_index as int].candidate_id as int]@
                &&& open.replace_current_window == (self.create_new_window == secondary)
                &&& open.path@ == self.directories@[self.selected()->0.candidate_id as int]@
                &&& open.replace_current_window == replaces_window(
                    self.create_new_window,
                    secondary,
                )
            },
    {
        if workspace_is_there && self.selected_match_index < self.matches.len() {
            let candidate: usize = self.matches[self.selected_match_index].candidate_id;
            Some(
                OpenDirectory {
                    path: self.directories[candidate].duplicate(),
                    replace_current_window: replaces_current_window(
                        self.create_new_window,
                        secondary,
                    ),
                },
            )
        } else {
            None
        }
    }

    /// The text that is shown where nothing matches.
    pub fn no_matches_text(&self) -> (text: Option<String>)
        ensures
            text is Some,
            text->0@ == self.empty_text(),
    {
        if self.directories.len() > 0 {
            return Some("No matches".to_owned());
        }
        if self.scan_directories.len() == 0 {
            return Some("No scan directories specified".to_owned());
        }
        let mut text = "No git directories found in ".to_owned();
        if self.scan_directories.len() == 1 {
            let directory = self.scan_directories[0].to_text();
            text.append(directory.as_str());
            text.append(" (create the directory and clone some repositories)");
        } else {
            let directories = list_shown(&self.scan_directories);
            text.append(directories.as_str());
            text.append(" (create the directories and clone some repositories)");
        }
        Some(text)
    }

    /// The match at `index` as it is drawn. There is nothing to draw where no match stands there,
    /// or where it names no directory.
    pub fn render_match(&self, index: usize, selected: bool) -> (row: Option<DirectoryRow>)
        ensures
            row is Some <==> index < self.matches@.len() && self.matches@[index as int].candidate_id
                < self.directories@.len(),
            row matches Some(r) ==> {
                let path = self.directories@[self.matches@[index as int].candidate_id as int]@;
                &&& r.index == index
                &&& r.selected == selected
                &&& r.name@ == shown_name(path)
                &&& r.path@ == shown(path)
            },
    {
        if index >= self.matches.len() {
            return None;
        }
        let candidate: usize = self.matches[index].candidate_id;
        if candidate >= self.directories.len() {
            return None;
        }
        let directory = &self.directories[candidate];
        Some(
            DirectoryRow {
                index,
                selected,
                name: directory.listed_name(),
                path: directory.to_text(),
            },
        )
    }
}

/// The matcher is offered one candidate for each listed directory, numbered by its place in the list
/// and bearing its name, and is asked for what is typed behind the white space.
pub proof fn each_directory_is_a_candidate(
    delegate: GitDirectoriesDelegate,
    typed: &str,
    blanks: Seq<char>,
    query: Seq<char>,
    request: MatchRequest,
    i: int,
    name: String,
)
    requires
        call_ensures(GitDirectoriesDelegate::match_request, (&delegate, typed), request),
        typed@ == blanks + query,
        forall|k: int| 0 <= k < blanks.len() ==> is_white_space(#[trigger] blanks[k]),
        query.len() > 0 ==> !is_white_space(query.first()),
        0 <= i < delegate.directories@.len(),
        call_ensures(DirectoryPath::listed_name, (&delegate.directories@[i],), name),
    ensures
        request.candidates@.len() == delegate.directories@.len(),
        request.candidates@[i].id == i,
        request.candidates@[i].string@ == name@,
        request.query@ == query,
        request.smart_case <==> exists|k: int|
            0 <= k < query.len() && ('A' <= #[trigger] query[k] <= 'Z' || query[k] > '\u{7f}'
                && uppercase_property(query[k])),
        request.penalize_length,
        request.max_results == 100,
{
    request_is_for_the_query(request, blanks, query);
}

/// Confirming is possible wherever the selected match, if there is one, names a listed directory.
pub proof fn a_match_that_names_a_directory_can_be_confirmed(
    delegate: GitDirectoriesDelegate,
    secondary: bool,
    workspace_is_there: bool,
)
    requires
        delegate.selected_match_index < delegate.matches@.len()
            ==> delegate.matches@[delegate.selected_match_index as int].candidate_id
            < delegate.directories@.len(),
    ensures
        delegate.selection_is_valid(),
        call_requires(GitDirectoriesDelegate::confirm, (&delegate, secondary, workspace_is_there)),
{
}

/// Confirming opens the directory that the selected match names, and nothing where no match is
/// selected or the workspace is gone. The window is replaced in the primary way unless the picker is
/// set to create new windows, in the secondary way only if it is.
pub proof fn the_selected_directory_is_opened(
    delegate: GitDirectoriesDelegate,
    secondary: bool,
    workspace_is_there: bool,
    chosen: Option<OpenDirectory>,
)
    requires
        call_ensures(GitDirectoriesDelegate::confirm, (&delegate, secondary, workspace_is_there), chosen),
    ensures
        chosen is Some <==> workspace_is_there && delegate.selected_match_index
            < delegate.matches@.len(),
        chosen is Some ==> chosen->0.path@
            == delegate.directories@[delegate.matches@[delegate.selected_match_index as int].candidate_id as int]@,
        chosen is Some ==> (chosen->0.replace_current_window <==> (if secondary {
            delegate.create_new_window
        } else {
            !delegate.create_new_window
        })),
{
}

/// A match is drawn exactly if it names a listed directory: at its own place, and with the name and
/// the path of that directory.
pub proof fn a_match_is_drawn_as_its_directory(
    delegate: GitDirectoriesDelegate,
    index: usize,
    selected: bool,
    row: Option<DirectoryRow>,
    name: String,
    text: String,
)
    requires
        call_ensures(GitDirectoriesDelegate::render_match, (&delegate, index, selected), row),
        index < delegate.matches@.len() && delegate.matches@[index as int].candidate_id
            < delegate.directories@.len() ==> call_ensures(
            DirectoryPath::listed_name,
            (&delegate.directories@[delegate.matches@[index as int].candidate_id as int],),
            name,
        ) && call_ensures(
            DirectoryPath::to_text,
            (&delegate.directories@[delegate.matches@[index as int].candidate_id as int],),
            text,
        ),
    ensures
        row is Some <==> index < delegate.matches@.len()
            && delegate.matches@[index as int].candidate_id < delegate.directories@.len(),
        row is Some ==> row->0.index == index && row->0.selected == selected,
        row is Some ==> row->0.name@ == name@ && row->0.path@ == text@,
{
}

/// The directory that is opened after a match was selected is the one that is drawn at its place.
pub proof fn what_is_drawn_is_what_is_opened(
    delegate: &mut GitDirectoriesDelegate,
    after: GitDirectoriesDelegate,
    index: usize,
    selected: bool,
    secondary: bool,
    row: Option<DirectoryRow>,
    chosen: Option<OpenDirectory>,
    opened: String,
)
    requires
        call_ensures(GitDirectoriesDelegate::set_selected_index, (delegate, index), ()),
        after == *final(delegate),
        call_ensures(GitDirectoriesDelegate::render_match, (&after, index, selected), row),
        call_ensures(GitDirectoriesDelegate::confirm, (&after, secondary, true), chosen),
        row is Some,
        chosen is Some ==> call_ensures(DirectoryPath::to_text, (&chosen->0.path,), opened),
    ensures
        chosen is Some,
        row->0.path@ == opened@,
        chosen->0.path@
            == old(delegate).directories@[old(delegate).matches@[index as int].candidate_id as int]@,
{
}

/// Selecting a match changes the selection and nothing else; what was selected is what is told.
pub proof fn selecting_changes_the_selection_only(
    delegate: &mut GitDirectoriesDelegate,
    after: GitDirectoriesDelegate,
    index: usize,
    told: usize,
    count: usize,
)
    requires
        call_ensures(GitDirectoriesDelegate::set_selected_index, (delegate, index), ()),
        after == *final(delegate),
        call_ensures(GitDirectoriesDelegate::selected_index, (&after,), told),
        call_ensures(GitDirectoriesDelegate::match_count, (&after,), count),
    ensures
        told == index,
        count == old(delegate).matches@.len(),
        after.matches == old(delegate).matches,
        after.directories == old(delegate).directories,
        after.create_new_window == old(delegate).create_new_window,
        after.scan_directories == old(delegate).scan_directories,
{
}

/// The action scans the directories that are given, and `~/git` where none are.
pub proof fn action_scans_what_is_given(
    given: Vec<String>,
    create_new_window: bool,
    action: OpenGitDirectory,
    fallback: OpenGitDirectory,
)
    requires
        call_ensures(OpenGitDirectory::new, (Some(given), create_new_window), action),
        call_ensures(OpenGitDirectory::new, (None, create_new_window), fallback),
    ensures
        action.directories == given,
        action.create_new_window == create_new_window,
        fallback.directories@.len() == 1,
        fallback.directories@[0]@ == "~/git"@,
        fallback.create_new_window == create_new_window,
{
}

/// The action opens the picker with what it was given, or selects the next entry of one that is open.
pub proof fn action_opens_the_picker_once(
    action: OpenGitDirectory,
    first: Response,
    again: Response,
)
    requires
        call_ensures(OpenGitDirectory::respond, (action, false), first),
        call_ensures(OpenGitDirectory::respond, (action, true), again),
    ensures
        first is Open,
        first->create_new_window == action.create_new_window,
        first->directories == action.directories,
        again is CycleSelection,
{
}

/// A directory that the scan has found is taken in as it is, and the picker waits for the next one as
/// long as it is there. It stops when the scan is over or could not be started.
pub proof fn found_directories_are_taken_in(
    directory: DirectoryPath,
    found: ScanAction,
    started: ScanAction,
    failed: ScanAction,
    taken: ScanAction,
    gone: ScanAction,
    finished: ScanAction,
)
    requires
        call_ensures(scan_step, (ScanEvent::Found(directory),), found),
        call_ensures(scan_step, (ScanEvent::Started(true),), started),
        call_ensures(scan_step, (ScanEvent::Started(false),), failed),
        call_ensures(scan_step, (ScanEvent::TakenIn(true),), taken),
        call_ensures(scan_step, (ScanEvent::TakenIn(false),), gone),
        call_ensures(scan_step, (ScanEvent::Finished,), finished),
    ensures
        found == ScanAction::TakeIn(directory),
        started is Receive,
        taken is Receive,
        failed is Stop,
        gone is Stop,
        finished is Stop,
{
}

/// Adding a directory puts it into the list once, leaves the others in their order, and changes
/// nothing else.
pub proof fn adding_puts_in_one_directory(
    delegate: &mut GitDirectoriesDelegate,
    directory: DirectoryPath,
)
    requires
        call_ensures(GitDirectoriesDelegate::add_directory, (delegate, directory), ()),
    ensures
        is_added(old(delegate).directories@, directory, final(delegate).directories@),
        exists|position: int|
            0 <= position <= old(delegate).directories@.len() && final(delegate).directories@
                == #[trigger] old(delegate).directories@.insert(position, directory),
        final(delegate).directories@.to_multiset() == old(delegate).directories@.to_multiset().insert(
            directory,
        ),
        final(delegate).matches == old(delegate).matches,
        final(delegate).selected_match_index == old(delegate).selected_match_index,
        final(delegate).create_new_window == old(delegate).create_new_window,
        final(delegate).scan_directories == old(delegate).scan_directories,
{
    let before = old(delegate).directories@;
    let position = choose|position: int|
        0 <= position <= before.len() && final(delegate).directories@ == #[trigger] before.insert(
            position,
            directory,
        );
    vstd::seq_lib::to_multiset_insert(before, position, directory);
}

/// Of two directories that were found, the one whose file name is smaller by its bytes stands ahead:
/// behind what the names have in common at the start, the name that stands ahead is at its end or
/// goes on with a byte that is not greater. Here `lists` holds the list before each of `found` was
/// added, and behind these the list at the end.
pub proof fn found_directories_stand_in_byte_order(
    found: Seq<DirectoryPath>,
    lists: Seq<Seq<DirectoryPath>>,
    i: int,
    j: int,
    parent_i: Seq<u8>,
    name_i: Seq<u8>,
    parent_j: Seq<u8>,
    name_j: Seq<u8>,
    common: int,
)
    requires
        lists.len() == found.len() + 1,
        lists[0].len() == 0,
        forall|k: int|
            0 <= k < found.len() ==> is_added(lists[k], #[trigger] found[k], lists[k + 1]),
        0 <= i < j < lists.last().len(),
        lists.last()[i]@ == parent_i + seq![47u8] + name_i,
        lists.last()[j]@ == parent_j + seq![47u8] + name_j,
        !name_i.contains(47u8) && name_i.len() > 0 && name_i != seq![46u8] && name_i != seq![
            46u8,
            46u8,
        ],
        !name_j.contains(47u8) && name_j.len() > 0 && name_j != seq![46u8] && name_j != seq![
            46u8,
            46u8,
        ],
        0 <= common <= name_i.len(),
        common <= name_j.len(),
        name_i.take(common) == name_j.take(common),
    ensures
        lists.last().to_multiset() == found.to_multiset(),
        common == name_i.len() || common < name_j.len() && name_i[common] <= name_j[common],
{
    found_directories_are_listed_in_order(found, lists);
    sorted_directories_stand_in_byte_order(
        lists.last(),
        i,
        j,
        parent_i,
        name_i,
        parent_j,
        name_j,
        common,
    );
}

/// Listing directories lists these and no others, and changes nothing else.
pub proof fn set_directories_are_listed_as_given(
    delegate: &mut GitDirectoriesDelegate,
    directories: Vec<DirectoryPath>,
)
    requires
        call_ensures(GitDirectoriesDelegate::set_directories, (delegate, directories), ()),
    ensures
        final(delegate).directories == directories,
        final(delegate).matches == old(delegate).matches,
        final(delegate).selected_match_index == old(delegate).selected_match_index,
        final(delegate).create_new_window == old(delegate).create_new_window,
        final(delegate).scan_directories == old(delegate).scan_directories,
{
}

/// A new picker lists nothing and selects nothing, keeps the setting, and scans each directory that
/// the user names: one that starts with `~` below the home directory, one without variables where
/// it is spelled, and any other where `shell_expand` puts it.
pub proof fn new_picker_scans_the_named_directories(
    create_new_window: bool,
    texts: Vec<String>,
    delegate: GitDirectoriesDelegate,
    i: int,
)
    requires
        call_ensures(GitDirectoriesDelegate::new, (create_new_window, texts), delegate)
            || call_ensures(
            GitDirectoriesDelegate::try_new,
            (create_new_window, texts),
            Some(delegate),
        ),
        0 <= i < texts@.len(),
    ensures
        delegate.directories@.len() == 0,
        delegate.matches@.len() == 0,
        delegate.selected_match_index == 0,
        delegate.create_new_window == create_new_window,
        delegate.scan_directories@.len() == texts@.len(),
        !texts@[i]@.contains('$') && (texts@[i]@ == seq!['~'] || texts@[i]@.len() > 1
            && texts@[i]@[0] == '~' && texts@[i]@[1] == '/') ==> exists|home: Option<Vec<u8>>|
         #[trigger]
            is_home(home) && (home is None ==> delegate.scan_directories@[i]@
                == vstd::utf8::encode_utf8(texts@[i]@)) && (home matches Some(start)
                ==> vstd::utf8::valid_utf8(start@) ==> delegate.scan_directories@[i]@ == start@
                + vstd::utf8::encode_utf8(texts@[i]@.skip(1))),
        !texts@[i]@.contains('$') && (texts@[i]@.len() == 0 || texts@[i]@[0] != '~')
            ==> delegate.scan_directories@[i]@ == vstd::utf8::encode_utf8(texts@[i]@),
        expandable(texts@[i]@) ==> exists|expansion: Option<String>| #[trigger]
            is_outcome(texts@[i]@, expansion) && (expansion matches Some(e)
                ==> delegate.scan_directories@[i]@ == vstd::utf8::encode_utf8(e@)) && (
            expansion is None ==> delegate.scan_directories@[i]@ == vstd::utf8::encode_utf8(
                texts@[i]@,
            )),
{
    let text = texts@[i]@;
    let paths = delegate.scan_directories@;
    paths_are_made_of_the_texts(texts@, paths, i);
    if !text.contains('$') {
        if text == seq!['~'] || text.len() > 1 && text[0] == '~' && text[1] == '/' {
            path_starts_at_home(text, paths[i]@);
        }
        if text.len() == 0 || text[0] != '~' {
            path_of_plain_text_is_as_spelled(text, paths[i]@);
        }
    }
}

/// What the matcher has found is kept as it is, and the first match that scores highest is selected.
/// Confirming opens the directory that this match names.
pub proof fn the_best_match_is_selected(
    delegate: &mut GitDirectoriesDelegate,
    after: GitDirectoriesDelegate,
    found: Vec<StringMatch>,
    j: int,
    secondary: bool,
    chosen: Option<OpenDirectory>,
)
    requires
        scores_are_unsigned(found@),
        call_ensures(GitDirectoriesDelegate::update_matches, (delegate, found), ()),
        after == *final(delegate),
        call_ensures(GitDirectoriesDelegate::confirm, (&after, secondary, true), chosen),
    ensures
        after.matches == found,
        after.directories == old(delegate).directories,
        after.create_new_window == old(delegate).create_new_window,
        after.scan_directories == old(delegate).scan_directories,
        found@.len() == 0 ==> after.selected_match_index == 0 && chosen is None,
        found@.len() > 0 ==> after.selected_match_index < found@.len() && chosen is Some,
        0 <= j < found@.len() ==> found@[j].score.bits
            <= found@[after.selected_match_index as int].score.bits,
        0 <= j < after.selected_match_index && j < found@.len() ==> found@[j].score.bits
            < found@[after.selected_match_index as int].score.bits,
        chosen is Some ==> chosen->0.path@
            == old(delegate).directories@[found@[after.selected_match_index as int].candidate_id as int]@,
{
    best_has_the_greatest_pattern(found@, after.selected_match_index as int, j);
    if found@.len() > 0 {
        best_has_the_greatest_pattern(found@, after.selected_match_index as int, 0);
    }
}

/// The text that is shown where nothing matches tells whether anything is listed at all, and if not,
/// in which directories nothing was found.
pub proof fn empty_list_names_the_scanned_directories(
    delegate: GitDirectoriesDelegate,
    list: String,
    text: Option<String>,
)
    requires
        call_ensures(list_shown, (&delegate.scan_directories,), list),
        call_ensures(GitDirectoriesDelegate::no_matches_text, (&delegate,), text),
    ensures
        text is Some,
        delegate.directories@.len() > 0 ==> text->0@ == "No matches"@,
        delegate.directories@.len() == 0 && delegate.scan_directories@.len() == 0 ==> text->0@
            == "No scan directories specified"@,
        delegate.directories@.len() == 0 && delegate.scan_directories@.len() == 1 ==> text->0@
            == "No git directories found in "@ + list@
            + " (create the directory and clone some repositories)"@,
        delegate.directories@.len() == 0 && delegate.scan_directories@.len() > 1 ==> text->0@
            == "No git directories found in "@ + list@
            + " (create the directories and clone some repositories)"@,
{
    if delegate.scan_directories@.len() == 1 {
        assert(all_shown(delegate.scan_directories@)[0] == shown(delegate.scan_directories@[0]@));
    }
}

/// The hint says what the picker is for, and names the key that replaces what the window shows and
/// the one that opens a new window.
pub proof fn placeholder_names_both_keys(
    delegate: GitDirectoriesDelegate,
    confirm: &str,
    secondary_confirm: &str,
    text: String,
)
    requires
        call_ensures(
            GitDirectoriesDelegate::placeholder_text,
            (&delegate, confirm, secondary_confirm),
            text,
        ),
    ensures
        delegate.create_new_window ==> text@ == "Open git directory - "@ + (secondary_confirm@
            + " reuses this window, "@ + confirm@ + " opens a new one"@),
        !delegate.create_new_window ==> text@ == "Open git directory - "@ + (confirm@
            + " reuses this window, "@ + secondary_confirm@ + " opens a new one"@),
{
}

/// There is a picker for every list of directories in which each `$` stands at the end, in front of an
/// ASCII character or in front of what is neither a letter nor a number.
pub proof fn ordinary_directories_give_a_picker(
    create_new_window: bool,
    texts: Vec<String>,
    delegate: Option<GitDirectoriesDelegate>,
)
    requires
        forall|k: int, i: int|
            0 <= k < texts@.len() && 0 <= i < texts@[k]@.len() - 1 && #[trigger] texts@[k]@[i]
                == '$' ==> texts@[k]@[i + 1] <= '\u{7f}' || !alphanumeric_property(
                texts@[k]@[i + 1],
            ),
        call_ensures(GitDirectoriesDelegate::try_new, (create_new_window, texts), delegate),
    ensures
        call_requires(GitDirectoriesDelegate::new, (create_new_window, texts)),
        delegate is Some,
{
    assert forall|k: int| 0 <= k < texts@.len() implies expandable((#[trigger] texts@[k])@) by {
        ascii_names_can_be_looked_up(texts@[k]@);
    }
}

/// There is no picker only if the expansion of one of the directories, as far as it can be looked up,
/// has come to a name that cannot; and there is none where such a name has no variable ahead of it.
pub proof fn odd_names_leave_no_picker(
    create_new_window: bool,
    texts: Vec<String>,
    delegate: Option<GitDirectoriesDelegate>,
    k: int,
    before: Seq<char>,
    odd: char,
    after: Seq<char>,
)
    requires
        call_ensures(GitDirectoriesDelegate::try_new, (create_new_window, texts), delegate),
    ensures
        delegate is None ==> exists|i: int, expansion: Option<String>|
            0 <= i < texts@.len() && !expandable((#[trigger] texts@[i])@) && #[trigger] is_outcome(
                before_odd(texts@[i]@),
                expansion,
            ) && expansion is Some,
        0 <= k < texts@.len() && texts@[k]@ == before + seq!['$', odd] + after && !before.contains(
            '$',
        ) && odd > '\u{7f}' && alphanumeric_property(odd) ==> delegate is None,
{
    if delegate is None {
        let i = choose|i: int| 0 <= i < texts@.len() && meets_odd_name((#[trigger] texts@[i])@);
        let expansion = choose|expansion: Option<String>| #[trigger]
            is_outcome(before_odd(texts@[i]@), expansion) && expansion is Some;
        assert(is_outcome(before_odd(texts@[i]@), expansion));
    }
    if let Some(d) = delegate {
        if 0 <= k < texts@.len() && texts@[k]@ == before + seq!['$', odd] + after
            && !before.contains('$') && odd > '\u{7f}' && alphanumeric_property(odd) {
            assert(forall|i: int| 0 <= i < before.len() ==> before.contains(#[trigger] before[i]));
            odd_names_cannot_be_looked_up(before, odd, after);
            paths_are_made_of_the_texts(texts@, d.scan_directories@, k);
            plain_text_has_an_outcome(before, None);
        }
    }
}

} // verus!
