//! The picker of the immediate subdirectories of a set of base directories.

use crate::matching::{
    best_is_unique, best_match, is_best, is_listing, listed_matches_go_by_score_and_number, listing,
    listing_starts_with_best, match_request, name_candidates, request_is_for_the_query,
    scores_are_numbers, scores_are_unsigned, unsigned_scores_stay_unsigned, MatchRequest,
    StringMatch, StringMatchCandidate,
};
use crate::path::{all_shown, list_shown, valid_name, DirectoryPath, SEPARATOR};
use crate::text::{
    is_white_space, joined, shown, trimmed, trimming_takes_white_space_only, uppercase_property,
};
use crate::window::{
    key_hint, key_hint_text, replaces_current_window, replaces_window, OpenDirectory,
};
use vstd::prelude::*;

verus! {

/// The action that opens the picker.
pub struct OpenSubdirectories {
    pub create_new_window: bool,
    /// The directories whose subdirectories are listed. Where none are given it is the home
    /// directory.
    pub base_directories: Option<Vec<String>>,
}

/// What the action that opens the picker does.
pub enum Response {
    /// The picker is open: select its next entry.
    CycleSelection,
    /// Open the picker.
    Open { create_new_window: bool, base_directories: Option<Vec<String>> },
}

impl OpenSubdirectories {
    /// What the action does, given whether the picker is open already.
    pub fn respond(self, picker_is_open: bool) -> (response: Response)
        ensures
            response == (if picker_is_open {
                Response::CycleSelection
            } else {
                Response::Open {
                    create_new_window: self.create_new_window,
                    base_directories: self.base_directories,
                }
            }),
    {
        if picker_is_open {
            Response::CycleSelection
        } else {
            Response::Open {
                create_new_window: self.create_new_window,
                base_directories: self.base_directories,
            }
        }
    }
}

/// `dirs::home_dir`: the home directory of the user, as the bytes of its path. Whether there is
/// one and which it is depends on the machine, so nothing is said of it.
#[verifier::external_body]
fn home_dir() -> (home: Option<Vec<u8>>) {
    dirs::home_dir().map(|home| home.into_os_string().into_encoded_bytes())
}

/// Whether `home` is an outcome of `home_dir`: the home directory, if there is one.
pub closed spec fn is_home(home: Option<Vec<u8>>) -> bool {
    call_ensures(home_dir, (), home)
}

/// A home directory is what a call of `home_dir` has handed back.
proof fn homes_come_from_the_call(home: Option<Vec<u8>>)
    requires
        is_home(home),
    ensures
        call_ensures(home_dir, (), home),
{
}

/// The bytes of a path, where there is one.
pub open spec fn path_bytes(path: Option<Vec<u8>>) -> Option<Seq<u8>> {
    match path {
        Some(bytes) => Some(bytes@),
        None => None,
    }
}

/// Whether `bases` are the base directories, where the user gave `given` and has the home directory
/// `home`: what is given, without white space around it; if nothing is, the home directory; and
/// the root of the file system where there is no home directory either.
pub open spec fn are_bases(
    given: Option<Vec<String>>,
    home: Option<Seq<u8>>,
    bases: Seq<DirectoryPath>,
) -> bool {
    match given {
        Some(texts) => {
            &&& bases.len() == texts@.len()
            &&& forall|i: int|
                0 <= i < bases.len() ==> (#[trigger] bases[i])@ == vstd::utf8::encode_utf8(
                    trimmed(texts@[i]@),
                )
        },
        None => {
            &&& bases.len() == 1
            &&& bases[0]@ == (match home {
                Some(path) => path,
                None => seq![SEPARATOR],
            })
        },
    }
}

/// The base directories, where the user gave `given` and has the home directory `home`.
pub fn choose_bases(given: &Option<Vec<String>>, home: Option<Vec<u8>>) -> (bases: Vec<
    DirectoryPath,
>)
    ensures
        are_bases(*given, path_bytes(home), bases@),
{
    let mut bases: Vec<DirectoryPath> = Vec::new();
    match given {
        Some(texts) => {
            let mut i: usize = 0;
            while i < texts.len()
                invariant
                    i <= texts@.len(),
                    bases@.len() == i,
                    forall|j: int|
                        0 <= j < i ==> (#[trigger] bases@[j])@ == vstd::utf8::encode_utf8(
                            trimmed(texts@[j]@),
                        ),
                decreases texts@.len() - i,
            {
                bases.push(DirectoryPath::from_text(texts[i].as_str().trim()));
                i += 1;
            }
        },
        None => {
            let bytes = match home {
                Some(path) => path,
                None => {
                    let mut root: Vec<u8> = Vec::new();
                    root.push(SEPARATOR);
                    root
                },
            };
            bases.push(DirectoryPath { bytes });
        },
    }
    bases
}

/// An entry of a base directory.
pub enum ListingEntry {
    Readable { path: DirectoryPath, is_directory: bool },
    /// An entry that could not be read.
    Unreadable,
}

/// The directories among `entries`, in their order.
pub open spec fn directories_among(entries: Seq<ListingEntry>) -> Seq<DirectoryPath>
    decreases entries.len(),
{
    if entries.len() == 0 {
        Seq::empty()
    } else {
        let earlier = directories_among(entries.drop_last());
        match entries.last() {
            ListingEntry::Readable { path, is_directory: true } => earlier.push(path),
            _ => earlier,
        }
    }
}

/// The directories among the entries of all of `listings`, in their order. A base directory that
/// could not be listed adds none.
pub open spec fn directories_in(listings: Seq<Option<Vec<ListingEntry>>>) -> Seq<DirectoryPath>
    decreases listings.len(),
{
    if listings.len() == 0 {
        Seq::empty()
    } else {
        let earlier = directories_in(listings.drop_last());
        match listings.last() {
            Some(entries) => earlier + directories_among(entries@),
            None => earlier,
        }
    }
}

/// The directories of listings one after another are those of the first listings, followed by those
/// of the others.
pub proof fn listings_are_loaded_in_order(
    a: Seq<Option<Vec<ListingEntry>>>,
    b: Seq<Option<Vec<ListingEntry>>>,
)
    ensures
        directories_in(a + b) == directories_in(a) + directories_in(b),
    decreases b.len(),
{
    if b.len() == 0 {
        assert(a + b == a);
        assert(directories_in(a) + directories_in(b) == directories_in(a));
    } else {
        listings_are_loaded_in_order(a, b.drop_last());
        assert((a + b).drop_last() == a + b.drop_last());
        assert((a + b).last() == b.last());
        assert(directories_in(a + b) == directories_in(a) + directories_in(b));
    }
}

/// An entry of the list as it is drawn.
pub struct SubdirectoryRow {
    pub index: usize,
    pub selected: bool,
    pub name: String,
    pub highlight_positions: Vec<usize>,
    pub tooltip: String,
}

/// The state of the picker.
pub struct SubdirectoriesDelegate {
    pub subdirectories: Vec<DirectoryPath>,
    pub selected_match_index: usize,
    /// The directories that match the query, each named by its place in `subdirectories`.
    pub matches: Vec<StringMatch>,
    pub create_new_window: bool,
    pub base_directories: Vec<DirectoryPath>,
}

impl SubdirectoriesDelegate {
    /// The names that the query is matched against.
    pub open spec fn names(self) -> Seq<Seq<char>> {
        Seq::new(self.subdirectories@.len(), |i: int| valid_name(self.subdirectories@[i]@))
    }

    /// The selected match, if there is one.
    pub open spec fn selected(self) -> Option<StringMatch> {
        if self.selected_match_index < self.matches@.len() {
            Some(self.matches@[self.selected_match_index as int])
        } else {
            None
        }
    }

    /// Whether the selected match, if there is one, names a directory.
    pub open spec fn selection_is_valid(self) -> bool {
        self.selected() matches Some(hit) ==> hit.candidate_id < self.subdirectories@.len()
    }

    /// The text that is shown where nothing matches.
    pub open spec fn empty_text(self) -> Seq<char> {
        if self.subdirectories@.len() > 0 {
            "No matches"@
        } else {
            "No subdirectories found in: "@ + joined(all_shown(self.base_directories@), ", "@)
        }
    }

    /// A picker for the base directories `base_directories`, or for the home directory where none
    /// are given. It lists nothing before `load_subdirectories`. Which directory is the home
    /// directory is up to the machine; `choose_bases` says what becomes of it.
    pub fn new(create_new_window: bool, base_directories: Option<Vec<String>>) -> (delegate: Self)
        ensures
            base_directories is Some ==> are_bases(
                base_directories,
                None,
                delegate.base_directories@,
            ),
            base_directories is None ==> exists|home: Option<Vec<u8>>| #[trigger]
                is_home(home) && are_bases(
                    base_directories,
                    path_bytes(home),
                    delegate.base_directories@,
                ),
            delegate.subdirectories@.len() == 0,
            delegate.selected_match_index == 0,
            delegate.matches@.len() == 0,
            delegate.create_new_window == create_new_window,
    {
        let home = if base_directories.is_some() {
            None
        } else {
            let home = home_dir();
            assert(is_home(home));
            home
        };
        let bases = choose_bases(&base_directories, home);
        SubdirectoriesDelegate {
            subdirectories: Vec::new(),
            selected_match_index: 0,
            matches: Vec::new(),
            create_new_window,
            base_directories: bases,
        }
    }

    /// Lists the directories among the entries of the base directories.
    pub fn load_subdirectories(&mut self, listings: Vec<Option<Vec<ListingEntry>>>)
        ensures
            final(self).subdirectories@ == old(self).subdirectories@ + directories_in(listings@),
            *final(self) == (SubdirectoriesDelegate {
                subdirectories: final(self).subdirectories,
                ..*old(self)
            }),
    {
        let ghost before = *self;
        assert(before.subdirectories@ + directories_in(listings@.take(0))
            == before.subdirectories@);
        for listing in outer: listings
            invariant
                outer.seq() == listings@,
                self.subdirectories@ == before.subdirectories@ + directories_in(
                    listings@.take(outer.index() as int),
                ),
                *self == (SubdirectoriesDelegate {
                    subdirectories: self.subdirectories,
                    ..before
                }),
        {
            let ghost earlier = self.subdirectories@;
            let ghost done = outer.index() as int;
            assert(listings@.take(done + 1).drop_last() == listings@.take(done));
            if let Some(entries) = listing {
                assert(earlier + directories_among(entries@.take(0)) == earlier);
                for entry in inner: entries
                    invariant
                        inner.seq() == entries@,
                        self.subdirectories@ == earlier + directories_among(
                            entries@.take(inner.index() as int),
                        ),
                        *self == (SubdirectoriesDelegate {
                            subdirectories: self.subdirectories,
                            ..before
                        }),
                {
                    let ghost seen = inner.index() as int;
                    assert(entries@.take(seen + 1).drop_last() == entries@.take(seen));
                    if let ListingEntry::Readable { path, is_directory: true } = entry {
                        self.subdirectories.push(path);
                    }
                }
                assert(entries@.take(entries@.len() as int) == entries@);
            }
        }
        assert(listings@.take(listings@.len() as int) == listings@);
    }

    /// The hint that is shown in the empty query. `confirm` and `secondary_confirm` are the keys
    /// of the two ways to confirm.
    pub fn placeholder_text(&self, confirm: &str, secondary_confirm: &str) -> (text: String)
        ensures
            text@ == key_hint(self.create_new_window, confirm@, secondary_confirm@),
    {
        let text = key_hint_text("", self.create_new_window, confirm, secondary_confirm);
        proof {
            reveal_strlit("");
            assert(""@ + key_hint(self.create_new_window, confirm@, secondary_confirm@) == key_hint(
                self.create_new_window,
                confirm@,
                secondary_confirm@,
            ));
        }
        text
    }

    /// How many directories match.
    pub fn match_count(&self) -> (count: usize)
        ensures
            count == self.matches@.len(),
    {
        self.matches.len()
    }

    /// The place of the selected match.
    pub fn selected_index(&self) -> (index: usize)
        ensures
            index == self.selected_match_index,
    {
        self.selected_match_index
    }

    /// Selects the match at `index`.
    pub fn set_selected_index(&mut self, index: usize)
        ensures
            *final(self) == (SubdirectoriesDelegate { selected_match_index: index, ..*old(self) }),
    {
        self.selected_match_index = index;
    }

    /// What the fuzzy matcher is asked about `query`.
    pub fn match_request(&self, query: &str) -> (request: MatchRequest)
        ensures
            request.asks_for(query@),
            request.offers(self.names()),
            request.candidates@.len() == self.subdirectories@.len(),
            forall|i: int|
                0 <= i < self.subdirectories@.len() ==> (#[trigger] request.candidates@[i]).id == i
                    && request.candidates@[i].string@ == valid_name(self.subdirectories@[i]@),
    {
        let mut candidates: Vec<StringMatchCandidate> = Vec::new();
        let mut i: usize = 0;
        while i < self.subdirectories.len()
            invariant
                i <= self.subdirectories@.len(),
                candidates@.len() == i,
                forall|j: int|
                    0 <= j < i ==> (#[trigger] candidates@[j]).id == j
                        && candidates@[j].string@ == self.names()[j],
            decreases self.subdirectories@.len() - i,
        {
            let string = self.subdirectories[i].plain_name();
            candidates.push(StringMatchCandidate { id: i, string });
            i += 1;
        }
        match_request(candidates, query)
    }

    /// Takes in what the fuzzy matcher has found, the best matches first, and selects the first of
    /// the best. What is no number as a score leaves the order open.
    pub fn update_matches(&mut self, found: Vec<StringMatch>)
        ensures
            final(self).matches@.to_multiset() == found@.to_multiset(),
            scores_are_numbers(found@) ==> is_listing(final(self).matches@),
            is_best(final(self).matches@, final(self).selected_match_index as int),
            scores_are_numbers(found@) ==> final(self).selected_match_index == 0,
            *final(self) == (SubdirectoriesDelegate {
                matches: final(self).matches,
                selected_match_index: final(self).selected_match_index,
                ..*old(self)
            }),
            name_candidates(found@, old(self).subdirectories@.len()) ==> {
                &&& name_candidates(final(self).matches@, final(self).subdirectories@.len())
                &&& final(self).selection_is_valid()
            },
    {
        let ghost all = found@;
        let matches = listing(found);
        self.selected_match_index = best_match(&matches);
        self.matches = matches;
        proof {
            let index = self.selected_match_index as int;
            if scores_are_numbers(all) {
                listing_starts_with_best(self.matches@);
                best_is_unique(self.matches@, index, 0);
            }
            if name_candidates(all, old(self).subdirectories@.len()) {
                broadcast use vstd::seq_lib::group_to_multiset_ensures;

                assert forall|i: int| 0 <= i < self.matches@.len() implies (
                #[trigger] self.matches@[i]).candidate_id < self.subdirectories@.len() by {
                    let hit = self.matches@[i];
                    assert(self.matches@.contains(hit));
                    assert(self.matches@.to_multiset().count(hit) > 0);
                    assert(all.contains(hit));
                }
            }
        }
    }

    /// What the user has chosen by confirming in the primary or the secondary way. It is nothing
    /// where no match is selected, or where the workspace is there no longer.
    pub fn confirm(&self, secondary: bool, workspace_is_there: bool) -> (chosen: Option<
        OpenDirectory,
    >)
        requires
            workspace_is_there ==> self.selection_is_valid(),
        ensures
            chosen is Some <==> workspace_is_there && self.selected() is Some,
            chosen is Some <==> workspace_is_there && self.selected_match_index
                < self.matches@.len(),
            chosen matches Some(open) ==> {
                &&& open.path@
                    == self.subdirectories@[self.matches@[self.selected_match_index as int].candidate_id as int]@
                &&& open.replace_current_window == (self.create_new_window == secondary)
                &&& open.path@ == self.subdirectories@[self.selected()->0.candidate_id as int]@
                &&& open.replace_current_window == replaces_window(
                    self.create_new_window,
                    secondary,
                )
            },
    {
        if workspace_is_there && self.selected_match_index < self.matches.len() {
            let candidate: usize = self.matches[self.selected_match_index].candidate_id;
            Some(
                OpenDirectory {
                    path: self.subdirectories[candidate].duplicate(),
                    replace_current_window: replaces_current_window(
                        self.create_new_window,
                        secondary,
                    ),
                },
            )
        } else {
            None
        }
    }

    /// The text that is shown where nothing matches.
    pub fn no_matches_text(&self) -> (text: Option<String>)
        ensures
            text is Some,
            text->0@ == self.empty_text(),
    {
        if self.subdirectories.len() > 0 {
            return Some("No matches".to_owned());
        }
        let mut text = "No subdirectories found in: ".to_owned();
        let directories = list_shown(&self.base_directories);
        text.append(directories.as_str());
        Some(text)
    }

    /// The match at `index` as it is drawn. There is nothing to draw where no match stands there,
    /// or where it names no directory.
    pub fn render_match(&self, index: usize, selected: bool) -> (row: Option<SubdirectoryRow>)
        ensures
            row is Some <==> index < self.matches@.len() && self.matches@[index as int].candidate_id
                < self.subdirectories@.len(),
            row matches Some(r) ==> {
                let hit = self.matches@[index as int];
                let path = self.subdirectories@[hit.candidate_id as int]@;
                &&& r.index == index
                &&& r.selected == selected
                &&& r.name@ == valid_name(path)
                &&& r.highlight_positions@ == hit.positions@
                &&& r.tooltip@ == shown(path)
            },
    {
        if index >= self.matches.len() {
            return None;
        }
        let hit = &self.matches[index];
        if hit.candidate_id >= self.subdirectories.len() {
            return None;
        }
        let directory = &self.subdirectories[hit.candidate_id];
        let highlight_positions = hit.positions.clone();
        assert(highlight_positions@ == hit.positions@);
        Some(
            SubdirectoryRow {
                index,
                selected,
                name: directory.plain_name(),
                highlight_positions,
                tooltip: directory.to_text(),
            },
        )
    }
}

/// How far the opening of a chosen directory has got.
#[derive(Clone, Copy)]
pub enum OpeningState {
    /// The current window was asked whether what it shows may be closed.
    AwaitingClose,
    /// The directory is being opened.
    Opening,
    /// There is nothing more to do.
    Finished,
}

/// What happens while a chosen directory is opened.
#[derive(Clone, Copy)]
pub enum OpeningEvent {
    /// The current window may be closed, or the user wants to keep it.
    CloseAnswered(bool),
    /// The directory is open.
    Opened,
    /// A step has failed.
    Failed,
}

/// What to do next about the chosen directory.
#[derive(Clone, Copy)]
pub enum OpeningAction {
    /// Ask whether what the current window shows may be closed.
    PrepareToClose,
    /// Open the directory, in the current window or in a new one.
    Open { replace_current_window: bool },
    /// Tell the user that the project could not be opened.
    ReportFailure,
    Nothing,
}

/// How the opening of a chosen directory starts: before what the current window shows is replaced,
/// it has to be closed.
pub open spec fn opening_start_spec(replace_current_window: bool) -> (OpeningState, OpeningAction) {
    if replace_current_window {
        (OpeningState::AwaitingClose, OpeningAction::PrepareToClose)
    } else {
        (OpeningState::Opening, OpeningAction::Open { replace_current_window: false })
    }
}

/// How the opening goes on after `event`. What does not fit the state changes nothing.
pub open spec fn opening_step_spec(state: OpeningState, event: OpeningEvent) -> (
    OpeningState,
    OpeningAction,
) {
    match (state, event) {
        (OpeningState::AwaitingClose, OpeningEvent::CloseAnswered(true)) => (
            OpeningState::Opening,
            OpeningAction::Open { replace_current_window: true },
        ),
        (OpeningState::AwaitingClose, OpeningEvent::CloseAnswered(false)) => (
            OpeningState::Finished,
            OpeningAction::Nothing,
        ),
        (OpeningState::AwaitingClose, OpeningEvent::Failed) => (
            OpeningState::Finished,
            OpeningAction::ReportFailure,
        ),
        (OpeningState::Opening, OpeningEvent::Opened) => (
            OpeningState::Finished,
            OpeningAction::Nothing,
        ),
        (OpeningState::Opening, OpeningEvent::Failed) => (
            OpeningState::Finished,
            OpeningAction::ReportFailure,
        ),
        _ => (state, OpeningAction::Nothing),
    }
}

/// How the opening of a chosen directory starts.
pub fn opening_start(replace_current_window: bool) -> (start: (OpeningState, OpeningAction))
    ensures
        start == opening_start_spec(replace_current_window),
{
    if replace_current_window {
        (OpeningState::AwaitingClose, OpeningAction::PrepareToClose)
    } else {
        (OpeningState::Opening, OpeningAction::Open { replace_current_window: false })
    }
}

/// How the opening goes on after `event`.
pub fn opening_step(state: OpeningState, event: OpeningEvent) -> (next: (
    OpeningState,
    OpeningAction,
))
    ensures
        next == opening_step_spec(state, event),
{
    match (state, event) {
        (OpeningState::AwaitingClose, OpeningEvent::CloseAnswered(true)) => (
            OpeningState::Opening,
            OpeningAction::Open { replace_current_window: true },
        ),
        (OpeningState::AwaitingClose, OpeningEvent::CloseAnswered(false)) => (
            OpeningState::Finished,
            OpeningAction::Nothing,
        ),
        (OpeningState::AwaitingClose, OpeningEvent::Failed) => (
            OpeningState::Finished,
            OpeningAction::ReportFailure,
        ),
        (OpeningState::Opening, OpeningEvent::Opened) => (
            OpeningState::Finished,
            OpeningAction::Nothing,
        ),
        (OpeningState::Opening, OpeningEvent::Failed) => (
            OpeningState::Finished,
            OpeningAction::ReportFailure,
        ),
        _ => (state, OpeningAction::Nothing),
    }
}

/// The title of the message that a directory could not be opened.
pub fn failure_title() -> (title: String)
    ensures
        title@ == "Failed to open project"@,
{
    "Failed to open project".to_owned()
}

/// The state after `events`, where the opening started in the state `start`.
pub open spec fn state_after(start: OpeningState, events: Seq<OpeningEvent>) -> OpeningState
    decreases events.len(),
{
    if events.len() == 0 {
        start
    } else {
        opening_step_spec(state_after(start, events.drop_last()), events.last()).0
    }
}

/// The directory is opened in the current window only if the user has chosen so and has agreed to
/// close what the window shows; and what the window shows is asked to close only if the user has
/// chosen to replace it.
pub proof fn window_is_replaced_only_after_closing(
    replace_current_window: bool,
    events: Seq<OpeningEvent>,
    event: OpeningEvent,
)
    requires
        ({
            let state = state_after(opening_start_spec(replace_current_window).0, events);
            opening_step_spec(state, event).1 == (OpeningAction::Open {
                replace_current_window: true,
            })
        }),
    ensures
        replace_current_window,
        event == OpeningEvent::CloseAnswered(true),
{
    lemma_awaits_only_when_replacing(replace_current_window, events);
}

proof fn lemma_awaits_only_when_replacing(replace_current_window: bool, events: Seq<OpeningEvent>)
    ensures
        state_after(opening_start_spec(replace_current_window).0, events) is AwaitingClose
            ==> replace_current_window,
    decreases events.len(),
{
    if events.len() > 0 {
        lemma_awaits_only_when_replacing(replace_current_window, events.drop_last());
    }
}

/// Whether opening the directory is asked for by the last of `events`.
pub open spec fn opens_at(replace_current_window: bool, events: Seq<OpeningEvent>) -> bool {
    if events.len() == 0 {
        opening_start_spec(replace_current_window).1 is Open
    } else {
        opening_step_spec(
            state_after(opening_start_spec(replace_current_window).0, events.drop_last()),
            events.last(),
        ).1 is Open
    }
}

/// The directory is opened once at most.
pub proof fn opens_once(
    replace_current_window: bool,
    events: Seq<OpeningEvent>,
    earlier: int,
    later: int,
)
    requires
        0 <= earlier < later <= events.len(),
        opens_at(replace_current_window, events.take(earlier)),
    ensures
        !opens_at(replace_current_window, events.take(later)),
{
    let start = opening_start_spec(replace_current_window).0;
    assert(state_after(start, events.take(earlier)) is Opening);
    lemma_stays_past_close(start, events, earlier, later - 1);
    assert(events.take(later).drop_last() == events.take(later - 1));
}

proof fn lemma_stays_past_close(
    start: OpeningState,
    events: Seq<OpeningEvent>,
    earlier: int,
    later: int,
)
    requires
        0 <= earlier <= later <= events.len(),
        !(state_after(start, events.take(earlier)) is AwaitingClose),
    ensures
        !(state_after(start, events.take(later)) is AwaitingClose),
    decreases later - earlier,
{
    if earlier < later {
        lemma_stays_past_close(start, events, earlier, later - 1);
        assert(events.take(later).drop_last() == events.take(later - 1));
    }
}

/// The matcher is offered one candidate for each listed directory, numbered by its place in the list
/// and bearing its name, and is asked for what is typed behind the white space.
pub proof fn each_directory_is_a_candidate(
    delegate: SubdirectoriesDelegate,
    typed: &str,
    blanks: Seq<char>,
    query: Seq<char>,
    request: MatchRequest,
    i: int,
    name: String,
)
    requires
        call_ensures(SubdirectoriesDelegate::match_request, (&delegate, typed), request),
        typed@ == blanks + query,
        forall|k: int| 0 <= k < blanks.len() ==> is_white_space(#[trigger] blanks[k]),
        query.len() > 0 ==> !is_white_space(query.first()),
        0 <= i < delegate.subdirectories@.len(),
        call_ensures(DirectoryPath::plain_name, (&delegate.subdirectories@[i],), name),
    ensures
        request.candidates@.len() == delegate.subdirectories@.len(),
        request.candidates@[i].id == i,
        request.candidates@[i].string@ == name@,
        request.query@ == query,
        request.smart_case <==> exists|k: int|
            0 <= k < query.len() && ('A' <= #[trigger] query[k] <= 'Z' || query[k] > '\u{7f}'
                && uppercase_property(query[k])),
        request.penalize_length,
        request.max_results == 100,
{
    request_is_for_the_query(request, blanks, query);
}

/// Confirming is possible wherever the selected match, if there is one, names a listed directory.
pub proof fn a_match_that_names_a_directory_can_be_confirmed(
    delegate: SubdirectoriesDelegate,
    secondary: bool,
    workspace_is_there: bool,
)
    requires
        delegate.selected_match_index < delegate.matches@.len()
            ==> delegate.matches@[delegate.selected_match_index as int].candidate_id
            < delegate.subdirectories@.len(),
    ensures
        delegate.selection_is_valid(),
        call_requires(SubdirectoriesDelegate::confirm, (&delegate, secondary, workspace_is_there)),
{
}

/// Confirming opens the directory that the selected match names, and nothing where no match is
/// selected or the workspace is gone. The window is replaced in the primary way unless the picker is
/// set to create new windows, in the secondary way only if it is.
pub proof fn the_selected_directory_is_opened(
    delegate: SubdirectoriesDelegate,
    secondary: bool,
    workspace_is_there: bool,
    chosen: Option<OpenDirectory>,
)
    requires
        call_ensures(SubdirectoriesDelegate::confirm, (&delegate, secondary, workspace_is_there), chosen),
    ensures
        chosen is Some <==> workspace_is_there && delegate.selected_match_index
            < delegate.matches@.len(),
        chosen is Some ==> chosen->0.path@
            == delegate.subdirectories@[delegate.matches@[delegate.selected_match_index as int].candidate_id as int]@,
        chosen is Some ==> (chosen->0.replace_current_window <==> (if secondary {
            delegate.create_new_window
        } else {
            !delegate.create_new_window
        })),
{
}

/// A match is drawn exactly if it names a listed directory: at its own place, and with the name and
/// the path of that directory.
pub proof fn a_match_is_drawn_as_its_directory(
    delegate: SubdirectoriesDelegate,
    index: usize,
    selected: bool,
    row: Option<SubdirectoryRow>,
    name: String,
    text: String,
)
    requires
        call_ensures(SubdirectoriesDelegate::render_match, (&delegate, index, selected), row),
        index < delegate.matches@.len() && delegate.matches@[index as int].candidate_id
            < delegate.subdirectories@.len() ==> call_ensures(
            DirectoryPath::plain_name,
            (&delegate.subdirectories@[delegate.matches@[index as int].candidate_id as int],),
            name,
        ) && call_ensures(
            DirectoryPath::to_text,
            (&delegate.subdirectories@[delegate.matches@[index as int].candidate_id as int],),
            text,
        ),
    ensures
        row is Some <==> index < delegate.matches@.len()
            && delegate.matches@[index as int].candidate_id < delegate.subdirectories@.len(),
        row is Some ==> row->0.index == index && row->0.selected == selected,
        row is Some ==> row->0.name@ == name@ && row->0.tooltip@ == text@,
        row is Some ==> row->0.highlight_positions@
            == delegate.matches@[index as int].positions@,
{
}

/// The directory that is opened after a match was selected is the one that is drawn at its place.
pub proof fn what_is_drawn_is_what_is_opened(
    delegate: &mut SubdirectoriesDelegate,
    after: SubdirectoriesDelegate,
    index: usize,
    selected: bool,
    secondary: bool,
    row: Option<SubdirectoryRow>,
    chosen: Option<OpenDirectory>,
    opened: String,
)
    requires
        call_ensures(SubdirectoriesDelegate::set_selected_index, (delegate, index), ()),
        after == *final(delegate),
        call_ensures(SubdirectoriesDelegate::render_match, (&after, index, selected), row),
        call_ensures(SubdirectoriesDelegate::confirm, (&after, secondary, true), chosen),
        row is Some,
        chosen is Some ==> call_ensures(DirectoryPath::to_text, (&chosen->0.path,), opened),
    ensures
        chosen is Some,
        row->0.tooltip@ == opened@,
        chosen->0.path@
            == old(delegate).subdirectories@[old(delegate).matches@[index as int].candidate_id as int]@,
{
}

/// Selecting a match changes the selection and nothing else; what was selected is what is told.
pub proof fn selecting_changes_the_selection_only(
    delegate: &mut SubdirectoriesDelegate,
    after: SubdirectoriesDelegate,
    index: usize,
    told: usize,
    count: usize,
)
    requires
        call_ensures(SubdirectoriesDelegate::set_selected_index, (delegate, index), ()),
        after == *final(delegate),
        call_ensures(SubdirectoriesDelegate::selected_index, (&after,), told),
        call_ensures(SubdirectoriesDelegate::match_count, (&after,), count),
    ensures
        told == index,
        count == old(delegate).matches@.len(),
        after.matches == old(delegate).matches,
        after.subdirectories == old(delegate).subdirectories,
        after.create_new_window == old(delegate).create_new_window,
        after.base_directories == old(delegate).base_directories,
{
}

/// The action opens the picker with what it was given, or selects the next entry of one that is open.
pub proof fn action_opens_the_picker_once(
    action: OpenSubdirectories,
    first: Response,
    again: Response,
)
    requires
        call_ensures(OpenSubdirectories::respond, (action, false), first),
        call_ensures(OpenSubdirectories::respond, (action, true), again),
    ensures
        first is Open,
        first->create_new_window == action.create_new_window,
        first->base_directories == action.base_directories,
        again is CycleSelection,
{
}

/// The base directories are those that are given, in their order, without the white space around
/// them, and whatever the home directory is.
pub proof fn given_directories_are_the_bases(
    texts: Vec<String>,
    home: Option<Vec<u8>>,
    bases: Vec<DirectoryPath>,
    i: int,
    before: Seq<char>,
    middle: Seq<char>,
    after: Seq<char>,
)
    requires
        call_ensures(choose_bases, (&Some(texts), home), bases),
        0 <= i < texts@.len(),
        texts@[i]@ == before + middle + after,
        forall|k: int| 0 <= k < before.len() ==> is_white_space(#[trigger] before[k]),
        forall|k: int| 0 <= k < after.len() ==> is_white_space(#[trigger] after[k]),
        middle.len() > 0 ==> !is_white_space(middle.first()) && !is_white_space(middle.last()),
    ensures
        bases@.len() == texts@.len(),
        bases@[i]@ == vstd::utf8::encode_utf8(middle),
{
    trimming_takes_white_space_only(before, middle, after);
}

/// Where no base directories are given, it is the home directory alone, and the root of the file
/// system for want of one.
pub proof fn home_is_the_base_where_none_is_given(
    path: Vec<u8>,
    at_home: Vec<DirectoryPath>,
    homeless: Vec<DirectoryPath>,
)
    requires
        call_ensures(choose_bases, (&None, Some(path)), at_home),
        call_ensures(choose_bases, (&None, None), homeless),
    ensures
        at_home@.len() == 1,
        at_home@[0]@ == path@,
        homeless@.len() == 1,
        homeless@[0]@ == seq![47u8],
{
}

/// A new picker lists nothing and selects nothing and keeps the setting. Its base directories are those
/// that are given, without the white space around them, or else the home directory or the root.
pub proof fn new_picker_has_the_given_bases(
    create_new_window: bool,
    given: Option<Vec<String>>,
    delegate: SubdirectoriesDelegate,
    i: int,
    before: Seq<char>,
    middle: Seq<char>,
    after: Seq<char>,
)
    requires
        call_ensures(SubdirectoriesDelegate::new, (create_new_window, given), delegate),
        given is Some ==> {
            &&& 0 <= i < given->0@.len()
            &&& given->0@[i]@ == before + middle + after
            &&& forall|k: int| 0 <= k < before.len() ==> is_white_space(#[trigger] before[k])
            &&& forall|k: int| 0 <= k < after.len() ==> is_white_space(#[trigger] after[k])
            &&& middle.len() > 0 ==> !is_white_space(middle.first()) && !is_white_space(
                middle.last(),
            )
        },
    ensures
        delegate.subdirectories@.len() == 0,
        delegate.matches@.len() == 0,
        delegate.selected_match_index == 0,
        delegate.create_new_window == create_new_window,
        given is Some ==> delegate.base_directories@.len() == given->0@.len()
            && delegate.base_directories@[i]@ == vstd::utf8::encode_utf8(middle),
        given is None ==> delegate.base_directories@.len() == 1 && exists|home: Option<Vec<u8>>|
         #[trigger]
            is_home(home) && (home matches Some(path) ==> delegate.base_directories@[0]@ == path@)
                && (home is None ==> delegate.base_directories@[0]@ == seq![47u8]),
{
    if given is Some {
        trimming_takes_white_space_only(before, middle, after);
    }
}

/// An entry is kept or not whatever stands next to it: the directories among entries one after another
/// are those among the first, followed by those among the others.
pub proof fn entries_are_kept_one_by_one(a: Seq<ListingEntry>, b: Seq<ListingEntry>)
    ensures
        directories_among(a + b) == directories_among(a) + directories_among(b),
    decreases b.len(),
{
    if b.len() == 0 {
        assert(a + b == a);
        assert(directories_among(a) + directories_among(b) == directories_among(a));
    } else {
        entries_are_kept_one_by_one(a, b.drop_last());
        assert((a + b).drop_last() == a + b.drop_last());
        assert((a + b).last() == b.last());
        assert(directories_among(a + b) == directories_among(a) + directories_among(b));
    }
}

/// A readable entry that is a directory is kept under its path; a file is not, and neither is what
/// could not be read.
pub proof fn directories_are_kept_and_files_are_not(path: DirectoryPath)
    ensures
        directories_among(Seq::empty()).len() == 0,
        directories_among(seq![ListingEntry::Readable { path, is_directory: true }]) == seq![path],
        directories_among(seq![ListingEntry::Readable { path, is_directory: false }]).len() == 0,
        directories_among(seq![ListingEntry::Unreadable]).len() == 0,
{
    let directory = seq![ListingEntry::Readable { path, is_directory: true }];
    let file = seq![ListingEntry::Readable { path, is_directory: false }];
    let unreadable = seq![ListingEntry::Unreadable];
    assert(directory.drop_last() == Seq::<ListingEntry>::empty());
    assert(file.drop_last() == Seq::<ListingEntry>::empty());
    assert(unreadable.drop_last() == Seq::<ListingEntry>::empty());
    assert(directories_among(directory.drop_last()) == Seq::<DirectoryPath>::empty());
    assert(directories_among(directory) == Seq::<DirectoryPath>::empty().push(path));
    assert(Seq::<DirectoryPath>::empty().push(path) == seq![path]);
}

/// A directory is kept as often as it stands among the entries, and nothing else is kept.
pub proof fn directories_are_kept_as_often_as_they_are_read(
    entries: Seq<ListingEntry>,
    path: DirectoryPath,
)
    ensures
        directories_among(entries).to_multiset().count(path) == entries.to_multiset().count(
            ListingEntry::Readable { path, is_directory: true },
        ),
    decreases entries.len(),
{
    broadcast use vstd::seq_lib::group_to_multiset_ensures;

    if entries.len() == 0 {
        assert(!directories_among(entries).contains(path));
        assert(!entries.contains(ListingEntry::Readable { path, is_directory: true }));
    } else {
        let earlier = entries.drop_last();
        directories_are_kept_as_often_as_they_are_read(earlier, path);
        assert(entries == earlier.push(entries.last()));
        let kept = directories_among(earlier);
        if let ListingEntry::Readable { path: other, is_directory: true } = entries.last() {
            assert(directories_among(entries) == kept.push(other));
        }
    }
}

/// A base directory that was read adds the directories in it, one that could not be read adds none.
pub proof fn one_listing_adds_its_directories(entries: Vec<ListingEntry>)
    ensures
        directories_in(seq![Some(entries)]) == directories_among(entries@),
        directories_in(seq![None]).len() == 0,
        directories_in(Seq::empty()).len() == 0,
{
    let one: Seq<Option<Vec<ListingEntry>>> = seq![Some(entries)];
    let none: Seq<Option<Vec<ListingEntry>>> = seq![None];
    assert(one.drop_last() == Seq::<Option<Vec<ListingEntry>>>::empty());
    assert(none.drop_last() == Seq::<Option<Vec<ListingEntry>>>::empty());
    assert(directories_in(one.drop_last()) + directories_among(entries@) == directories_among(
        entries@,
    ));
}

/// Loading adds the directories among the entries behind those that are listed already, and changes
/// nothing else. A directory that stands anywhere in a listing, whatever stands around it, is added
/// between what is added for the entries before it and what is added for those behind it.
pub proof fn every_directory_is_loaded(
    delegate: &mut SubdirectoriesDelegate,
    listings: Vec<Option<Vec<ListingEntry>>>,
    entries: Vec<ListingEntry>,
    k: int,
    before: Seq<ListingEntry>,
    path: DirectoryPath,
    is_directory: bool,
    after: Seq<ListingEntry>,
)
    requires
        call_ensures(SubdirectoriesDelegate::load_subdirectories, (delegate, listings), ()),
        0 <= k < listings@.len(),
        listings@[k] == Some(entries),
        entries@ == before + seq![ListingEntry::Readable { path, is_directory }] + after,
    ensures
        final(delegate).subdirectories@ == old(delegate).subdirectories@ + directories_in(
            listings@.take(k),
        ) + directories_among(before) + (if is_directory {
            seq![path]
        } else {
            Seq::empty()
        }) + directories_among(after) + directories_in(listings@.skip(k + 1)),
        is_directory ==> final(delegate).subdirectories@.contains(path),
        final(delegate).matches == old(delegate).matches,
        final(delegate).selected_match_index == old(delegate).selected_match_index,
        final(delegate).create_new_window == old(delegate).create_new_window,
        final(delegate).base_directories == old(delegate).base_directories,
{
    let one: Seq<Option<Vec<ListingEntry>>> = seq![Some(entries)];
    let entry = seq![ListingEntry::Readable { path, is_directory }];
    assert(listings@ == listings@.take(k) + one + listings@.skip(k + 1));
    listings_are_loaded_in_order(listings@.take(k) + one, listings@.skip(k + 1));
    listings_are_loaded_in_order(listings@.take(k), one);
    one_listing_adds_its_directories(entries);
    entries_are_kept_one_by_one(before + entry, after);
    entries_are_kept_one_by_one(before, entry);
    directories_are_kept_and_files_are_not(path);
    let head = old(delegate).subdirectories@ + directories_in(listings@.take(k))
        + directories_among(before);
    let middle = if is_directory {
        seq![path]
    } else {
        Seq::empty()
    };
    let tail = directories_among(after) + directories_in(listings@.skip(k + 1));
    assert(directories_among(entry) == middle);
    assert(final(delegate).subdirectories@ == head + middle + directories_among(after)
        + directories_in(listings@.skip(k + 1)));
    if is_directory {
        assert(final(delegate).subdirectories@[head.len() as int] == path);
    }
}

/// Base directories that could not be read make no difference, and nothing is added where there are
/// no entries.
pub proof fn unreadable_listings_add_nothing(
    a: Seq<Option<Vec<ListingEntry>>>,
    b: Seq<Option<Vec<ListingEntry>>>,
)
    ensures
        directories_in(a + seq![None] + b) == directories_in(a + b),
{
    listings_are_loaded_in_order(a + seq![None], b);
    listings_are_loaded_in_order(a, seq![None]);
    listings_are_loaded_in_order(a, b);
    let none: Seq<Option<Vec<ListingEntry>>> = seq![None];
    assert(none.drop_last() == Seq::<Option<Vec<ListingEntry>>>::empty());
    assert(directories_in(none.drop_last()) == Seq::<DirectoryPath>::empty());
    assert(directories_in(none) == Seq::<DirectoryPath>::empty());
    assert(directories_in(a) + directories_in(none) == directories_in(a));
}

/// What the matcher has found is listed with the higher scores ahead, and among equal scores with the
/// directory ahead that is listed ahead. The first is selected, and confirming opens the directory
/// that it names.
pub proof fn the_best_match_is_listed_first_and_selected(
    delegate: &mut SubdirectoriesDelegate,
    after: SubdirectoriesDelegate,
    found: Vec<StringMatch>,
    i: int,
    j: int,
    secondary: bool,
    chosen: Option<OpenDirectory>,
)
    requires
        scores_are_unsigned(found@),
        call_ensures(SubdirectoriesDelegate::update_matches, (delegate, found), ()),
        after == *final(delegate),
        call_ensures(SubdirectoriesDelegate::confirm, (&after, secondary, true), chosen),
    ensures
        after.matches@.to_multiset() == found@.to_multiset(),
        after.subdirectories == old(delegate).subdirectories,
        after.create_new_window == old(delegate).create_new_window,
        after.base_directories == old(delegate).base_directories,
        after.selected_match_index == 0,
        0 <= i < j < after.matches@.len() ==> after.matches@[i].score.bits
            >= after.matches@[j].score.bits,
        0 <= i < j < after.matches@.len() && after.matches@[i].score.bits
            == after.matches@[j].score.bits ==> after.matches@[i].candidate_id
            <= after.matches@[j].candidate_id,
        chosen is Some <==> found@.len() > 0,
        chosen is Some ==> chosen->0.path@
            == old(delegate).subdirectories@[after.matches@[0].candidate_id as int]@,
{
    broadcast use vstd::seq_lib::group_to_multiset_ensures;

    unsigned_scores_stay_unsigned(found@, after.matches@);
    assert(after.matches@.len() == after.matches@.to_multiset().len() == found@.len());
    if 0 <= i < j < after.matches@.len() {
        listed_matches_go_by_score_and_number(after.matches@, i, j);
    }
}

/// The text that is shown where nothing matches tells whether anything is listed at all, and if not,
/// in which directories nothing was found.
pub proof fn empty_list_names_the_bases(
    delegate: SubdirectoriesDelegate,
    list: String,
    text: Option<String>,
)
    requires
        call_ensures(list_shown, (&delegate.base_directories,), list),
        call_ensures(SubdirectoriesDelegate::no_matches_text, (&delegate,), text),
    ensures
        text is Some,
        delegate.subdirectories@.len() > 0 ==> text->0@ == "No matches"@,
        delegate.subdirectories@.len() == 0 ==> text->0@ == "No subdirectories found in: "@ + list@,
{
}

/// The hint names the key that replaces what the window shows and the one that opens a new window.
pub proof fn placeholder_names_both_keys(
    delegate: SubdirectoriesDelegate,
    confirm: &str,
    secondary_confirm: &str,
    text: String,
)
    requires
        call_ensures(
            SubdirectoriesDelegate::placeholder_text,
            (&delegate, confirm, secondary_confirm),
            text,
        ),
    ensures
        delegate.create_new_window ==> text@ == secondary_confirm@ + " reuses this window, "@
            + confirm@ + " opens a new one"@,
        !delegate.create_new_window ==> text@ == confirm@ + " reuses this window, "@
            + secondary_confirm@ + " opens a new one"@,
{
}

/// A directory that is to replace what the window shows is opened there once the user agrees to close
/// it, and not at all if the user does not; one that is to replace nothing is opened in a new window
/// at once.
pub proof fn answer_decides_on_opening(
    replacing: (OpeningState, OpeningAction),
    agreed: (OpeningState, OpeningAction),
    refused: (OpeningState, OpeningAction),
    creating: (OpeningState, OpeningAction),
)
    requires
        call_ensures(opening_start, (true,), replacing),
        call_ensures(opening_start, (false,), creating),
        call_ensures(opening_step, (replacing.0, OpeningEvent::CloseAnswered(true)), agreed),
        call_ensures(opening_step, (replacing.0, OpeningEvent::CloseAnswered(false)), refused),
    ensures
        replacing.1 is PrepareToClose,
        agreed.0 is Opening,
        agreed.1 == (OpeningAction::Open { replace_current_window: true }),
        refused.0 is Finished,
        refused.1 is Nothing,
        creating.0 is Opening,
        creating.1 == (OpeningAction::Open { replace_current_window: false }),
{
}

/// A step that fails is told to the user and ends the opening, and so does the directory being open,
/// of which nothing is told.
pub proof fn failures_are_told(
    state: OpeningState,
    failed: (OpeningState, OpeningAction),
    opened: (OpeningState, OpeningAction),
)
    requires
        !(state is Finished),
        call_ensures(opening_step, (state, OpeningEvent::Failed), failed),
        call_ensures(opening_step, (OpeningState::Opening, OpeningEvent::Opened), opened),
    ensures
        failed.0 is Finished,
        failed.1 is ReportFailure,
        opened.0 is Finished,
        opened.1 is Nothing,
{
}

/// Once the opening has ended nothing more is done, whatever happens; and what does not fit the state
/// changes nothing.
pub proof fn nothing_is_done_after_the_end(
    event: OpeningEvent,
    answer: bool,
    finished: (OpeningState, OpeningAction),
    opening: (OpeningState, OpeningAction),
    awaiting: (OpeningState, OpeningAction),
)
    requires
        call_ensures(opening_step, (OpeningState::Finished, event), finished),
        call_ensures(
            opening_step,
            (OpeningState::Opening, OpeningEvent::CloseAnswered(answer)),
            opening,
        ),
        call_ensures(opening_step, (OpeningState::AwaitingClose, OpeningEvent::Opened), awaiting),
    ensures
        finished.0 is Finished,
        finished.1 is Nothing,
        opening.0 is Opening,
        opening.1 is Nothing,
        awaiting.0 is AwaitingClose,
        awaiting.1 is Nothing,
{
}

/// The message that a directory could not be opened says so.
pub proof fn failure_is_named(title: String)
    requires
        call_ensures(failure_title, (), title),
    ensures
        title@ == "Failed to open project"@,
{
}

} // verus!
