//! Which of the directories that a walk comes across are listed, and where the walk goes on.

use crate::path::{file_name_of, last_component_decides, DirectoryPath, DOT, SEPARATOR};
use vstd::prelude::*;

verus! {

/// What a walk has to go through: a first directory and those to be added to it.
pub struct WalkPlan {
    pub first: DirectoryPath,
    pub rest: Vec<DirectoryPath>,
}

/// The walk through `roots`, in their order. There has to be one at least.
pub fn walk_plan(roots: Vec<DirectoryPath>) -> (plan: WalkPlan)
    requires
        roots@.len() > 0,
    ensures
        seq![plan.first] + plan.rest@ == roots@,
{
    let mut rest = roots;
    let first = rest.remove(0);
    assert(seq![first] + rest@ == roots@);
    WalkPlan { first, rest }
}

/// An entry of the file system that a walk comes across.
pub struct WalkEntry {
    pub path: DirectoryPath,
    /// How far below the directory in which the walk started: zero for that directory itself.
    pub depth: usize,
    /// Something named `.git` exists in it.
    pub has_git: bool,
    /// The names of the files that stand directly in it.
    pub file_names: Vec<String>,
}

/// What a walk reports.
pub enum WalkEvent {
    Entry(WalkEntry),
    /// An entry that could not be read.
    Unreadable,
}

/// Where a walk goes on.
#[derive(Clone, Copy)]
pub enum WalkState {
    /// With whatever comes next.
    Continue,
    /// With what does not lie inside the entry.
    Skip,
}

/// Whether `name` is that of a file that goes along with git.
pub open spec fn is_git_file(name: Seq<char>) -> bool {
    ||| name == ".gitignore"@
    ||| name == ".gitmodules"@
    ||| name == "README.md"@
}

/// What follows the last dot of `name`: all of `name` where it has none.
pub open spec fn after_last_dot(name: Seq<char>) -> Seq<char>
    decreases name.len(),
{
    if name.len() == 0 || name.last() == '.' {
        Seq::empty()
    } else {
        after_last_dot(name.drop_last()).push(name.last())
    }
}

/// The extension of the file name `name`: what follows its last dot, provided that something
/// comes before that dot.
pub open spec fn extension_of(name: Seq<char>) -> Option<Seq<char>> {
    let extension = after_last_dot(name);
    if extension.len() + 1 < name.len() {
        Some(extension)
    } else {
        None
    }
}

/// Whether files with this extension hold source code.
pub open spec fn is_source_extension(extension: Seq<char>) -> bool {
    ||| extension == "c"@
    ||| extension == "cc"@
    ||| extension == "cpp"@
    ||| extension == "cs"@
    ||| extension == "dart"@
    ||| extension == "ex"@
    ||| extension == "go"@
    ||| extension == "h"@
    ||| extension == "hpp"@
    ||| extension == "hs"@
    ||| extension == "java"@
    ||| extension == "js"@
    ||| extension == "jsx"@
    ||| extension == "kt"@
    ||| extension == "lua"@
    ||| extension == "ml"@
    ||| extension == "php"@
    ||| extension == "py"@
    ||| extension == "rb"@
    ||| extension == "rs"@
    ||| extension == "scala"@
    ||| extension == "sh"@
    ||| extension == "swift"@
    ||| extension == "ts"@
    ||| extension == "tsx"@
    ||| extension == "zig"@
}

/// Whether the file named `name` holds source code.
pub open spec fn is_source_file(name: Seq<char>) -> bool {
    extension_of(name) matches Some(extension) && is_source_extension(extension)
}

impl WalkEntry {
    /// Whether the name of this entry starts with a dot. The directory in which the walk started
    /// is never hidden.
    pub open spec fn is_hidden_spec(self) -> bool {
        self.depth > 0 && (file_name_of(self.path@) matches Some(name) && name[0] == DOT)
    }

    /// Whether this entry looks like a project: a repository, or, below the directory in which the
    /// walk started, a directory that holds files of git or source code.
    pub open spec fn is_project_spec(self) -> bool {
        ||| self.has_git
        ||| self.depth > 0 && exists|i: int|
            0 <= i < self.file_names@.len() && {
                ||| is_git_file((#[trigger] self.file_names@[i])@)
                ||| is_source_file(self.file_names@[i]@)
            }
    }

    /// Whether this entry is listed.
    pub open spec fn is_listed_spec(self) -> bool {
        self.is_project_spec() && !self.is_hidden_spec()
    }
}

/// Whether two texts are the same.
fn same_text(a: &str, b: &str) -> (same: bool)
    ensures
        same == (a@ == b@),
{
    a.to_owned() == b.to_owned()
}

proof fn lemma_after_last_dot(name: Seq<char>, start: int)
    requires
        0 <= start <= name.len(),
        start == 0 || name[start - 1] == '.',
        forall|i: int| start <= i < name.len() ==> name[i] != '.',
    ensures
        after_last_dot(name) == name.skip(start),
    decreases name.len(),
{
    if name.len() == start {
        assert(name.skip(start) == Seq::<char>::empty());
    } else {
        lemma_after_last_dot(name.drop_last(), start);
        assert(name.skip(start) == name.drop_last().skip(start).push(name.last()));
    }
}

/// Whether files with this extension hold source code.
fn names_source(extension: &str) -> (source: bool)
    ensures
        source == is_source_extension(extension@),
{
    same_text(extension, "c") || same_text(extension, "cc") || same_text(extension, "cpp")
        || same_text(extension, "cs") || same_text(extension, "dart") || same_text(extension, "ex")
        || same_text(extension, "go") || same_text(extension, "h") || same_text(extension, "hpp")
        || same_text(extension, "hs") || same_text(extension, "java") || same_text(extension, "js")
        || same_text(extension, "jsx") || same_text(extension, "kt") || same_text(extension, "lua")
        || same_text(extension, "ml") || same_text(extension, "php") || same_text(extension, "py")
        || same_text(extension, "rb") || same_text(extension, "rs")
        || same_text(extension, "scala") || same_text(extension, "sh")
        || same_text(extension, "swift") || same_text(extension, "ts")
        || same_text(extension, "tsx") || same_text(extension, "zig")
}

/// Whether the file named `name` goes along with git or holds source code.
pub fn marks_project(name: &str) -> (marks: bool)
    ensures
        marks == (is_git_file(name@) || is_source_file(name@)),
{
    if same_text(name, ".gitignore") || same_text(name, ".gitmodules") || same_text(
        name,
        "README.md",
    ) {
        return true;
    }
    let length = name.unicode_len();
    let mut start: usize = 0;
    let mut seen: usize = 0;
    for c in chars: name.chars()
        invariant
            chars.seq() == name@,
            length == name@.len(),
            seen == chars.index(),
            start <= seen,
            start == 0 || name@[start - 1] == '.',
            forall|i: int| start <= i < seen ==> name@[i] != '.',
    {
        seen += 1;
        if c == '.' {
            start = seen;
        }
    }
    proof {
        lemma_after_last_dot(name@, start as int);
    }
    if start < 2 {
        return false;
    }
    let extension = name.substring_char(start, length);
    assert(extension@ == name@.skip(start as int));
    names_source(extension)
}

impl WalkEntry {
    /// Whether the name of this entry starts with a dot.
    pub fn is_hidden(&self) -> (hidden: bool)
        ensures
            hidden == self.is_hidden_spec(),
    {
        if self.depth == 0 {
            return false;
        }
        match self.path.file_name() {
            Some(name) => name[0] == DOT,
            None => false,
        }
    }

    /// Whether this entry looks like a project.
    pub fn is_project(&self) -> (project: bool)
        ensures
            project == self.is_project_spec(),
    {
        if self.has_git {
            return true;
        }
        if self.depth == 0 {
            return false;
        }
        let mut i: usize = 0;
        while i < self.file_names.len()
            invariant
                i <= self.file_names@.len(),
                self.depth > 0,
                forall|j: int|
                    0 <= j < i ==> !is_git_file((#[trigger] self.file_names@[j])@)
                        && !is_source_file(self.file_names@[j]@),
            decreases self.file_names@.len() - i,
        {
            if marks_project(self.file_names[i].as_str()) {
                return true;
            }
            i += 1;
        }
        false
    }
}

/// The directory that `event` adds to the list, if any.
pub open spec fn listed_by(event: WalkEvent) -> Option<DirectoryPath> {
    match event {
        WalkEvent::Entry(entry) => if entry.is_listed_spec() {
            Some(entry.path)
        } else {
            None
        },
        WalkEvent::Unreadable => None,
    }
}

/// Whether the walk keeps out of the entry of `event`: it does of a repository and of what is
/// hidden. It goes on inside other projects, where repositories may lie.
pub open spec fn skipped_by(event: WalkEvent) -> bool {
    event matches WalkEvent::Entry(entry) && (entry.has_git || entry.is_hidden_spec())
}

/// What to do about `event`: the directory to list, if any, and where the walk goes on.
pub fn visit(event: WalkEvent) -> (visited: (Option<DirectoryPath>, WalkState))
    ensures
        visited.0 == listed_by(event),
        visited.1 is Skip <==> skipped_by(event),
{
    match event {
        WalkEvent::Entry(entry) => {
            if entry.is_hidden() {
                (None, WalkState::Skip)
            } else if entry.has_git {
                (Some(entry.path), WalkState::Skip)
            } else if entry.is_project() {
                (Some(entry.path), WalkState::Continue)
            } else {
                (None, WalkState::Continue)
            }
        },
        WalkEvent::Unreadable => (None, WalkState::Continue),
    }
}

/// A hidden directory is not listed, whatever it holds, and the walk keeps out of it.
pub proof fn hidden_directories_are_left_out(entry: WalkEntry)
    requires
        entry.is_hidden_spec(),
    ensures
        listed_by(WalkEvent::Entry(entry)) is None,
        skipped_by(WalkEvent::Entry(entry)),
{
}

/// A repository is listed unless it is hidden, and so is, below the directory in which the walk
/// started, a directory with a file of git or with source code in it.
pub proof fn projects_are_listed(entry: WalkEntry, file: int)
    requires
        !entry.is_hidden_spec(),
        entry.has_git || entry.depth > 0 && 0 <= file < entry.file_names@.len() && (is_git_file(
            entry.file_names@[file]@,
        ) || is_source_file(entry.file_names@[file]@)),
    ensures
        listed_by(WalkEvent::Entry(entry)) == Some(entry.path),
{
}

/// Whether `inner` lies inside the directory `outer`.
pub open spec fn lies_inside(inner: Seq<u8>, outer: Seq<u8>) -> bool {
    (outer + seq![SEPARATOR]).is_prefix_of(inner)
}

/// Whether `events` come from a walk that goes through a directory only after it has come across
/// the directory itself, and not at all after it was told to skip it.
pub open spec fn heeds_skips(events: Seq<WalkEvent>) -> bool {
    forall|i: int, j: int|
        0 <= i < events.len() && 0 <= j < events.len() && (#[trigger] events[i]) is Entry && (
        #[trigger] events[j]) is Entry && lies_inside(
            events[j]->Entry_0.path@,
            events[i]->Entry_0.path@,
        ) ==> i < j && !skipped_by(events[i])
}

/// No directory is listed that lies inside a listed repository.
pub proof fn repositories_are_not_entered(events: Seq<WalkEvent>, i: int, j: int)
    requires
        heeds_skips(events),
        0 <= i < events.len(),
        0 <= j < events.len(),
        events[i] matches WalkEvent::Entry(entry) && entry.has_git,
        listed_by(events[i]) is Some,
        listed_by(events[j]) is Some,
    ensures
        !lies_inside(listed_by(events[j])->0@, listed_by(events[i])->0@),
{
}

/// The walk is told to skip nothing that is not hidden and is no repository: what lies inside a
/// directory that is listed for its files only is looked at too.
pub proof fn projects_without_repository_are_entered(entry: WalkEntry)
    requires
        !entry.has_git,
        !entry.is_hidden_spec(),
    ensures
        !skipped_by(WalkEvent::Entry(entry)),
{
}

/// A walk starts with the first of the directories that it is to go through; the others follow in
/// their order.
pub proof fn walk_goes_through_all_roots(roots: Vec<DirectoryPath>, plan: WalkPlan)
    requires
        roots@.len() > 0,
        call_ensures(walk_plan, (roots,), plan),
    ensures
        plan.first == roots@[0],
        plan.rest@ == roots@.skip(1),
{
    assert((seq![plan.first] + plan.rest@)[0] == plan.first);
    assert((seq![plan.first] + plan.rest@).skip(1) == plan.rest@);
}

/// A file that goes along with git marks a project.
pub proof fn files_of_git_mark_projects(name: &str, marks: bool)
    requires
        name@ == ".gitignore"@ || name@ == ".gitmodules"@ || name@ == "README.md"@,
        call_ensures(marks_project, (name,), marks),
    ensures
        marks,
{
}

/// Any other file marks a project exactly if what follows its last dot is the extension of a
/// programming language, and something comes before that dot.
pub proof fn source_files_mark_projects(
    name: &str,
    stem: Seq<char>,
    extension: Seq<char>,
    marks: bool,
)
    requires
        name@ == stem + seq!['.'] + extension,
        !extension.contains('.'),
        name@ != ".gitignore"@ && name@ != ".gitmodules"@ && name@ != "README.md"@,
        call_ensures(marks_project, (name,), marks),
    ensures
        stem.len() == 0 ==> !marks,
        stem.len() > 0 ==> (marks <==> seq![
            "c"@,
            "cc"@,
            "cpp"@,
            "cs"@,
            "dart"@,
            "ex"@,
            "go"@,
            "h"@,
            "hpp"@,
            "hs"@,
            "java"@,
            "js"@,
            "jsx"@,
            "kt"@,
            "lua"@,
            "ml"@,
            "php"@,
            "py"@,
            "rb"@,
            "rs"@,
            "scala"@,
            "sh"@,
            "swift"@,
            "ts"@,
            "tsx"@,
            "zig"@,
        ].contains(extension)),
{
    let known = seq![
        "c"@,
        "cc"@,
        "cpp"@,
        "cs"@,
        "dart"@,
        "ex"@,
        "go"@,
        "h"@,
        "hpp"@,
        "hs"@,
        "java"@,
        "js"@,
        "jsx"@,
        "kt"@,
        "lua"@,
        "ml"@,
        "php"@,
        "py"@,
        "rb"@,
        "rs"@,
        "scala"@,
        "sh"@,
        "swift"@,
        "ts"@,
        "tsx"@,
        "zig"@,
    ];
    assert forall|i: int| stem.len() < i < name@.len() implies name@[i] != '.' by {
        assert(extension.contains(extension[i - stem.len() - 1]));
    }
    let start = stem.len() as int + 1;
    lemma_after_last_dot(name@, start);
    assert(name@.skip(start) == extension);
    assert(is_source_extension(extension) <==> known.contains(extension)) by {
        if is_source_extension(extension) {
            broadcast use vstd::seq_lib::group_seq_properties;

            assert(known.contains(extension));
        }
        if known.contains(extension) {
            let i = choose|i: int| 0 <= i < known.len() && known[i] == extension;
        }
    }
}

/// A file without a dot in its name marks no project.
pub proof fn files_without_extension_mark_no_project(name: &str, marks: bool)
    requires
        !name@.contains('.'),
        name@ != ".gitignore"@ && name@ != ".gitmodules"@ && name@ != "README.md"@,
        call_ensures(marks_project, (name,), marks),
    ensures
        !marks,
{
    assert(forall|i: int| 0 <= i < name@.len() ==> name@.contains(#[trigger] name@[i]));
    lemma_after_last_dot(name@, 0);
    assert(name@.skip(0) == name@);
}

/// An entry below the directory in which the walk started is hidden exactly if the first byte of its
/// name is a dot; that directory itself is never hidden, and neither is what has no name.
pub proof fn names_with_a_leading_dot_are_hidden(
    entry: WalkEntry,
    parent: Seq<u8>,
    name: Seq<u8>,
    hidden: bool,
)
    requires
        entry.path@ == parent + seq![47u8] + name,
        !name.contains(47u8),
        name.len() > 0,
        call_ensures(WalkEntry::is_hidden, (&entry,), hidden),
    ensures
        hidden == entry.is_hidden_spec(),
        entry.depth == 0 ==> !hidden,
        name == seq![46u8, 46u8] ==> !hidden,
        entry.depth > 0 && name != seq![46u8] && name != seq![46u8, 46u8] ==> (hidden <==> name[0]
            == 46u8),
{
    last_component_decides(parent, name);
}

/// A repository whose name does not start with a dot is listed, wherever it lies and whatever else
/// it holds, and the walk keeps out of it.
pub proof fn repositories_are_listed(
    entry: WalkEntry,
    parent: Seq<u8>,
    name: Seq<u8>,
    visited: (Option<DirectoryPath>, WalkState),
)
    requires
        entry.has_git,
        entry.path@ == name || entry.path@ == parent + seq![47u8] + name,
        !name.contains(47u8),
        name.len() > 0,
        name[0] != 46u8,
        call_ensures(visit, (WalkEvent::Entry(entry),), visited),
    ensures
        visited.0 == Some(entry.path),
        visited.1 is Skip,
{
    last_component_decides(parent, name);
}

/// The directory in which a walk started is listed exactly if it is a repository, whatever it is
/// called, and the walk keeps out of it exactly then.
pub proof fn start_is_listed_as_a_repository_only(
    entry: WalkEntry,
    visited: (Option<DirectoryPath>, WalkState),
)
    requires
        entry.depth == 0,
        call_ensures(visit, (WalkEvent::Entry(entry),), visited),
    ensures
        entry.has_git ==> visited.0 == Some(entry.path) && visited.1 is Skip,
        !entry.has_git ==> visited.0 is None && visited.1 is Continue,
{
}

/// A directory below the start whose name starts with a dot is not listed, whatever it holds, and
/// the walk keeps out of it.
pub proof fn directories_with_a_leading_dot_are_left_out(
    entry: WalkEntry,
    parent: Seq<u8>,
    name: Seq<u8>,
    visited: (Option<DirectoryPath>, WalkState),
)
    requires
        entry.depth > 0,
        entry.path@ == parent + seq![47u8] + name,
        !name.contains(47u8),
        name.len() > 0,
        name[0] == 46u8,
        name != seq![46u8],
        name != seq![46u8, 46u8],
        call_ensures(visit, (WalkEvent::Entry(entry),), visited),
    ensures
        visited.0 is None,
        visited.1 is Skip,
{
    last_component_decides(parent, name);
}

/// A directory below the start that is no repository and whose name does not start with a dot is
/// listed if one of its files marks a project, whichever it is and whatever the others are. The
/// walk goes on inside it.
pub proof fn one_file_that_marks_a_project_is_enough(
    entry: WalkEntry,
    parent: Seq<u8>,
    name: Seq<u8>,
    file: int,
    file_name: &str,
    visited: (Option<DirectoryPath>, WalkState),
)
    requires
        entry.depth > 0,
        !entry.has_git,
        entry.path@ == parent + seq![47u8] + name,
        !name.contains(47u8),
        name.len() > 0,
        name[0] != 46u8,
        0 <= file < entry.file_names@.len(),
        file_name@ == entry.file_names@[file]@,
        call_ensures(marks_project, (file_name,), true),
        call_ensures(visit, (WalkEvent::Entry(entry),), visited),
    ensures
        visited.0 == Some(entry.path),
        visited.1 is Continue,
{
    last_component_decides(parent, name);
}

/// A directory that is no repository and none of whose files marks a project is not listed. Unless
/// its name starts with a dot, the walk goes on inside it.
pub proof fn directories_without_marks_are_not_listed(
    entry: WalkEntry,
    parent: Seq<u8>,
    name: Seq<u8>,
    file_names: Seq<&str>,
    visited: (Option<DirectoryPath>, WalkState),
)
    requires
        !entry.has_git,
        entry.path@ == parent + seq![47u8] + name,
        !name.contains(47u8),
        name.len() > 0,
        file_names.len() == entry.file_names@.len(),
        forall|i: int|
            0 <= i < file_names.len() ==> (#[trigger] file_names[i])@ == entry.file_names@[i]@
                && call_ensures(marks_project, (file_names[i],), false),
        call_ensures(visit, (WalkEvent::Entry(entry),), visited),
    ensures
        visited.0 is None,
        name[0] != 46u8 ==> visited.1 is Continue,
{
    last_component_decides(parent, name);
    assert forall|i: int| 0 <= i < entry.file_names@.len() implies !is_git_file(
        (#[trigger] entry.file_names@[i])@,
    ) && !is_source_file(entry.file_names@[i]@) by {
        assert(file_names[i]@ == entry.file_names@[i]@);
    }
}

/// An entry that could not be read adds nothing to the list, and the walk goes on.
pub proof fn unreadable_entries_change_nothing(visited: (Option<DirectoryPath>, WalkState))
    requires
        call_ensures(visit, (WalkEvent::Unreadable,), visited),
    ensures
        visited.0 is None,
        visited.1 is Continue,
{
}

/// What is listed is the path of the entry itself, and a walk that comes across an entry twice does
/// the same both times.
pub proof fn only_the_entry_itself_is_listed(
    entry: WalkEntry,
    visited: (Option<DirectoryPath>, WalkState),
    again: (Option<DirectoryPath>, WalkState),
)
    requires
        call_ensures(visit, (WalkEvent::Entry(entry),), visited),
        call_ensures(visit, (WalkEvent::Entry(entry),), again),
    ensures
        visited.0 is Some ==> visited.0 == Some(entry.path),
        visited == again,
{
}

/// No directory is listed that lies inside a directory with a `.git`: where the walk is told to skip
/// such a directory, it comes across nothing inside it.
pub proof fn nothing_is_visited_inside_a_repository(
    events: Seq<WalkEvent>,
    i: int,
    j: int,
    visited: (Option<DirectoryPath>, WalkState),
)
    requires
        0 <= i < events.len(),
        0 <= j < events.len(),
        events[i] is Entry,
        events[j] is Entry,
        events[i]->Entry_0.has_git,
        call_ensures(visit, (events[i],), visited),
        heeds_skips(events),
    ensures
        visited.1 is Skip,
        !(events[i]->Entry_0.path@ + seq![47u8]).is_prefix_of(events[j]->Entry_0.path@),
{
    assert(lies_inside(events[j]->Entry_0.path@, events[i]->Entry_0.path@) <==> (
    events[i]->Entry_0.path@ + seq![47u8]).is_prefix_of(events[j]->Entry_0.path@));
}

/// A repository is a project. Anything else is one only below the directory in which the walk started,
/// and there exactly if one of its files marks a project.
pub proof fn files_make_a_project(
    entry: WalkEntry,
    file_names: Seq<&str>,
    marks: Seq<bool>,
    project: bool,
)
    requires
        file_names.len() == entry.file_names@.len(),
        marks.len() == entry.file_names@.len(),
        forall|i: int|
            0 <= i < file_names.len() ==> (#[trigger] file_names[i])@ == entry.file_names@[i]@
                && call_ensures(marks_project, (file_names[i],), marks[i]),
        call_ensures(WalkEntry::is_project, (&entry,), project),
    ensures
        project == entry.is_project_spec(),
        project <==> entry.has_git || entry.depth > 0 && exists|i: int|
            0 <= i < marks.len() && #[trigger] marks[i],
{
    assert forall|i: int| 0 <= i < marks.len() implies (#[trigger] marks[i]) == (is_git_file(
        entry.file_names@[i]@,
    ) || is_source_file(entry.file_names@[i]@)) by {
        assert(file_names[i]@ == entry.file_names@[i]@);
    }
    if entry.depth > 0 && exists|i: int| 0 <= i < marks.len() && #[trigger] marks[i] {
        let i = choose|i: int| 0 <= i < marks.len() && #[trigger] marks[i];
        assert(is_git_file((entry.file_names@[i])@) || is_source_file(entry.file_names@[i]@));
    }
    if project && !entry.has_git {
        let i = choose|i: int|
            0 <= i < entry.file_names@.len() && {
                ||| is_git_file((#[trigger] entry.file_names@[i])@)
                ||| is_source_file(entry.file_names@[i]@)
            };
        assert(marks[i]);
    }
}

} // verus!
