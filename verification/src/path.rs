//! Paths as byte sequences, and the file name that a path ends in.
//!
//! Paths are those of Linux and macOS: `/` separates their components, and no prefix such as the
//! name of a drive stands ahead of the first.

use crate::text::{decode_lossy, decode_strict, joined, lossy_text, shown};
use vstd::prelude::*;

verus! {

/// The byte that separates the components of a path.
pub const SEPARATOR: u8 = 47;

/// The byte of which the components `.` and `..` are made.
pub const DOT: u8 = 46;

/// `path` without what may follow its last component and names nothing: separators, and
/// `.` components that come after a separator.
pub open spec fn without_trailing_separators(path: Seq<u8>) -> Seq<u8>
    decreases path.len(),
{
    if path.len() > 0 && path.last() == SEPARATOR {
        without_trailing_separators(path.drop_last())
    } else if path.len() > 1 && path.last() == DOT && path[path.len() - 2] == SEPARATOR {
        without_trailing_separators(path.drop_last())
    } else {
        path
    }
}

/// What follows the last separator of `path`: all of `path` where it has none.
pub open spec fn after_last_separator(path: Seq<u8>) -> Seq<u8>
    decreases path.len(),
{
    if path.len() == 0 || path.last() == SEPARATOR {
        Seq::empty()
    } else {
        after_last_separator(path.drop_last()).push(path.last())
    }
}

/// The name that `path` ends in. There is none where the last component is `.` or `..`, or
/// where `path` has no component at all.
pub open spec fn file_name_of(path: Seq<u8>) -> Option<Seq<u8>> {
    let name = after_last_separator(without_trailing_separators(path));
    if name.len() == 0 || name == seq![DOT] || name == seq![DOT, DOT] {
        None
    } else {
        Some(name)
    }
}

/// The bytes by which directories are ordered: the file name, or nothing where there is none.
pub open spec fn sort_key(path: Seq<u8>) -> Seq<u8> {
    match file_name_of(path) {
        Some(name) => name,
        None => Seq::empty(),
    }
}

/// The name under which `path` is listed, with replacement characters where it is not valid text.
pub open spec fn shown_name(path: Seq<u8>) -> Seq<char> {
    match file_name_of(path) {
        Some(name) => shown(name),
        None => shown(path),
    }
}

/// The file name of `path` where it is valid text, and nothing otherwise.
pub open spec fn valid_name(path: Seq<u8>) -> Seq<char> {
    match file_name_of(path) {
        Some(name) => if vstd::utf8::valid_utf8(name) {
            vstd::utf8::decode_utf8(name)
        } else {
            Seq::empty()
        },
        None => Seq::empty(),
    }
}

/// How each of `paths` is shown.
pub open spec fn all_shown(paths: Seq<DirectoryPath>) -> Seq<Seq<char>> {
    Seq::new(paths.len(), |i: int| shown(paths[i]@))
}

/// The path of a directory, as the bytes of which the file system makes it up. They need
/// not be valid UTF-8.
pub struct DirectoryPath {
    pub bytes: Vec<u8>,
}

impl View for DirectoryPath {
    type V = Seq<u8>;

    open spec fn view(&self) -> Seq<u8> {
        self.bytes@
    }
}

/// The part of `bytes` from `start` up to `end`.
fn copy_range(bytes: &Vec<u8>, start: usize, end: usize) -> (part: Vec<u8>)
    requires
        start <= end <= bytes@.len(),
    ensures
        part@ == bytes@.subrange(start as int, end as int),
{
    let mut part: Vec<u8> = Vec::new();
    let mut i: usize = start;
    while i < end
        invariant
            start <= i <= end <= bytes@.len(),
            part@ == bytes@.subrange(start as int, i as int),
        decreases end - i,
    {
        part.push(bytes[i]);
        i += 1;
        assert(bytes@.subrange(start as int, i as int) == bytes@.subrange(
            start as int,
            i - 1,
        ).push(bytes@[i - 1]));
    }
    part
}

proof fn lemma_after_last_separator(path: Seq<u8>, start: int)
    requires
        0 <= start <= path.len(),
        start == 0 || path[start - 1] == SEPARATOR,
        forall|i: int| start <= i < path.len() ==> path[i] != SEPARATOR,
    ensures
        after_last_separator(path) == path.skip(start),
    decreases path.len(),
{
    if path.len() == start {
        assert(path.skip(start) == Seq::<u8>::empty());
    } else {
        lemma_after_last_separator(path.drop_last(), start);
        assert(path.skip(start) == path.drop_last().skip(start).push(path.last()));
    }
}

/// All of `paths` as they are shown, with a comma and a blank between any two.
pub fn list_shown(paths: &Vec<DirectoryPath>) -> (list: String)
    ensures
        list@ == joined(all_shown(paths@), ", "@),
{
    let ghost texts = all_shown(paths@);
    let mut list = String::new();
    let mut i: usize = 0;
    while i < paths.len()
        invariant
            i <= paths@.len(),
            texts == all_shown(paths@),
            list@ == joined(texts.take(i as int), ", "@),
        decreases paths@.len() - i,
    {
        if i > 0 {
            list.append(", ");
        }
        let text = paths[i].to_text();
        list.append(text.as_str());
        i += 1;
        assert(texts.take(i as int).drop_last() == texts.take(i - 1));
        assert(texts.take(i as int).last() == shown(paths@[i - 1]@));
        assert(i == 1 ==> list@ == texts.take(1)[0]);
    }
    assert(texts.take(i as int) == texts);
    list
}

impl DirectoryPath {
    /// The path that is spelled `text`.
    pub fn from_text(text: &str) -> (path: DirectoryPath)
        ensures
            path@ == vstd::utf8::encode_utf8(text@),
    {
        let bytes = vstd::slice::slice_to_vec(text.as_bytes());
        DirectoryPath { bytes }
    }

    /// A second copy of this path.
    pub fn duplicate(&self) -> (path: DirectoryPath)
        ensures
            path@ == self@,
    {
        let bytes = copy_range(&self.bytes, 0, self.bytes.len());
        assert(self.bytes@.subrange(0, self.bytes@.len() as int) == self.bytes@);
        DirectoryPath { bytes }
    }

    /// The name that this path ends in.
    pub fn file_name(&self) -> (name: Option<Vec<u8>>)
        ensures
            name is Some <==> file_name_of(self@) is Some,
            name matches Some(bytes) ==> bytes@ == file_name_of(self@)->0,
    {
        let ghost path = self@;
        let mut end: usize = self.bytes.len();
        assert(path.take(end as int) == path);
        loop
            invariant
                path == self.bytes@,
                end <= path.len(),
                without_trailing_separators(path) == without_trailing_separators(
                    path.take(end as int),
                ),
            ensures
                end <= path.len(),
                without_trailing_separators(path) == path.take(end as int),
            decreases end,
        {
            let ghost shorter = path.take(end as int);
            if end > 0 && self.bytes[end - 1] == SEPARATOR {
                assert(shorter.drop_last() == path.take(end - 1));
                end -= 1;
            } else if end > 1 && self.bytes[end - 1] == DOT && self.bytes[end - 2] == SEPARATOR {
                assert(shorter.drop_last() == path.take(end - 1));
                end -= 1;
            } else {
                break ;
            }
        }
        let mut start: usize = end;
        while start > 0 && self.bytes[start - 1] != SEPARATOR
            invariant
                path == self.bytes@,
                start <= end <= path.len(),
                forall|i: int| start <= i < end ==> path[i] != SEPARATOR,
            decreases start,
        {
            start -= 1;
        }
        proof {
            lemma_after_last_separator(path.take(end as int), start as int);
            assert(path.take(end as int).skip(start as int) == path.subrange(
                start as int,
                end as int,
            ));
        }
        let name = copy_range(&self.bytes, start, end);
        let single_dot = name.len() == 1 && name[0] == DOT;
        let double_dot = name.len() == 2 && name[0] == DOT && name[1] == DOT;
        proof {
            assert(single_dot <==> name@ =~= seq![DOT]);
            assert(double_dot <==> name@ =~= seq![DOT, DOT]);
        }
        if name.len() == 0 || single_dot || double_dot {
            None
        } else {
            Some(name)
        }
    }

    /// This path as it is shown.
    pub fn to_text(&self) -> (text: String)
        ensures
            text@ == shown(self@),
    {
        decode_lossy(&self.bytes)
    }

    /// The name by which this directory is listed: the file name as it is shown, or the whole path
    /// where there is none.
    pub fn listed_name(&self) -> (name: String)
        ensures
            name@ == shown_name(self@),
    {
        match self.file_name() {
            Some(name) => decode_lossy(&name),
            None => self.to_text(),
        }
    }

    /// The file name where it is valid text, and nothing where it is not or where there is none.
    pub fn plain_name(&self) -> (name: String)
        ensures
            name@ == valid_name(self@),
    {
        match self.file_name() {
            Some(name) => match decode_strict(name) {
                Some(text) => text,
                None => String::new(),
            },
            None => String::new(),
        }
    }

    /// The bytes by which this directory is ordered among others.
    pub fn key(&self) -> (key: Vec<u8>)
        ensures
            key@ == sort_key(self@),
    {
        match self.file_name() {
            Some(name) => name,
            None => Vec::new(),
        }
    }
}

/// A path that is spelled as a text is shown as that text.
pub proof fn spelled_path_is_shown_as_spelled(text: Seq<char>)
    ensures
        shown(vstd::utf8::encode_utf8(text)) == text,
{
    broadcast use {vstd::utf8::encode_utf8_valid_utf8, vstd::utf8::encode_utf8_decode_utf8};

}

/// A component that is put behind a directory, and after it any number of separators, is the file
/// name of the path, unless it is `.` or `..`.
pub proof fn last_component_is_file_name(parent: Seq<u8>, name: Seq<u8>, trailing: nat)
    requires
        name.len() > 0,
        !name.contains(SEPARATOR),
        name != seq![DOT],
        name != seq![DOT, DOT],
    ensures
        file_name_of(
            parent + seq![SEPARATOR] + name + Seq::new(trailing, |i: int| SEPARATOR),
        ) == Some(name),
    decreases trailing,
{
    let start = parent + seq![SEPARATOR];
    let path = start + name + Seq::new(trailing, |i: int| SEPARATOR);
    if trailing > 0 {
        last_component_is_file_name(parent, name, (trailing - 1) as nat);
        assert(path.drop_last() == start + name + Seq::new(
            (trailing - 1) as nat,
            |i: int| SEPARATOR,
        ));
    } else {
        assert(path == start + name);
        assert(path.last() == name.last());
        assert(name.contains(name.last()));
        assert(path.len() > 1 && path.last() == DOT && path[path.len() - 2] == SEPARATOR ==> name
            =~= seq![DOT]) by {
            if name.len() > 1 {
                assert(path[path.len() - 2] == name[name.len() - 2]);
                assert(name.contains(name[name.len() - 2]));
            }
        }
        assert forall|i: int| start.len() <= i < path.len() implies path[i] != SEPARATOR by {
            assert(name.contains(name[i - start.len()]));
        }
        lemma_after_last_separator(path, start.len() as int);
        assert(path.skip(start.len() as int) == name);
    }
}

/// The last component of a path decides on the file name: one that is empty or `.` leaves it to what
/// comes before, `..` is no name, and any other is the name.
pub proof fn last_component_decides(parent: Seq<u8>, last: Seq<u8>)
    requires
        !last.contains(47u8),
    ensures
        file_name_of(last) == (if last.len() == 0 || last == seq![46u8] || last == seq![
            46u8,
            46u8,
        ] {
            None
        } else {
            Some(last)
        }),
        file_name_of(parent + seq![47u8] + last) == (if last.len() == 0 || last == seq![46u8] {
            file_name_of(parent)
        } else if last == seq![46u8, 46u8] {
            None
        } else {
            Some(last)
        }),
{
    let start = parent + seq![47u8];
    let path = start + last;
    assert(forall|i: int| 0 <= i < last.len() ==> last.contains(#[trigger] last[i]));
    lemma_after_last_separator(last, 0);
    assert(last.skip(0) == last);
    assert(without_trailing_separators(last) == last);
    if last.len() == 0 {
        assert(path == start);
        assert(start.drop_last() == parent);
    } else if last == seq![46u8] {
        assert(path.last() == 46u8);
        assert(path[path.len() - 2] == 47u8);
        assert(path.drop_last() == start);
        assert(start.drop_last() == parent);
        assert(without_trailing_separators(path) == without_trailing_separators(start));
        assert(without_trailing_separators(start) == without_trailing_separators(parent));
    } else {
        assert(path.last() == last.last());
        if last.len() == 1 {
            assert(last.last() == 46u8 ==> last == seq![46u8]);
        } else {
            assert(path[path.len() - 2] == last[last.len() - 2]);
        }
        assert(without_trailing_separators(path) == path);
        assert forall|i: int| start.len() <= i < path.len() implies path[i] != 47u8 by {
            assert(path[i] == last[i - start.len()]);
        }
        lemma_after_last_separator(path, start.len() as int);
        assert(path.skip(start.len() as int) == last);
    }
}

/// Separators and `.` components that are put behind a path change neither its file name nor the
/// bytes by which it is ordered.
pub proof fn what_names_nothing_changes_no_name(
    path: DirectoryPath,
    longer: DirectoryPath,
    name: Option<Vec<u8>>,
    longer_name: Option<Vec<u8>>,
    key: Vec<u8>,
    longer_key: Vec<u8>,
)
    requires
        longer@ == path@ + seq![47u8] || longer@ == path@ + seq![47u8, 46u8],
        call_ensures(DirectoryPath::file_name, (&path,), name),
        call_ensures(DirectoryPath::file_name, (&longer,), longer_name),
        call_ensures(DirectoryPath::key, (&path,), key),
        call_ensures(DirectoryPath::key, (&longer,), longer_key),
    ensures
        name is Some <==> longer_name is Some,
        name is Some ==> name->0@ == longer_name->0@,
        key@ == longer_key@,
{
    last_component_decides(path@, Seq::empty());
    last_component_decides(path@, seq![46u8]);
    assert(path@ + seq![47u8] + Seq::<u8>::empty() == path@ + seq![47u8]);
    assert(path@ + seq![47u8] + seq![46u8] == path@ + seq![47u8, 46u8]);
}

/// A path that ends in the component `last` has it as its file name, is ordered by all of its bytes
/// and no others, and is listed under the text that they encode. Where they encode none, it is
/// listed with replacement characters, or under no name at all.
pub proof fn path_is_named_by_its_last_component(
    path: DirectoryPath,
    parent: Seq<u8>,
    last: Seq<u8>,
    name: Option<Vec<u8>>,
    key: Vec<u8>,
    listed: String,
    plain: String,
)
    requires
        path@ == last || path@ == parent + seq![47u8] + last,
        !last.contains(47u8),
        last.len() > 0,
        last != seq![46u8],
        last != seq![46u8, 46u8],
        call_ensures(DirectoryPath::file_name, (&path,), name),
        call_ensures(DirectoryPath::key, (&path,), key),
        call_ensures(DirectoryPath::listed_name, (&path,), listed),
        call_ensures(DirectoryPath::plain_name, (&path,), plain),
    ensures
        name is Some,
        name->0@ == last,
        key@ == last,
        vstd::utf8::valid_utf8(last) ==> last == vstd::utf8::encode_utf8(listed@),
        vstd::utf8::valid_utf8(last) ==> last == vstd::utf8::encode_utf8(plain@),
        !vstd::utf8::valid_utf8(last) ==> listed@ == lossy_text(last),
        !vstd::utf8::valid_utf8(last) ==> plain@.len() == 0,
{
    broadcast use vstd::utf8::decode_utf8_encode_utf8;

    last_component_decides(parent, last);
}

/// A path that is empty, or whose last component is `.` on its own or `..`, has no file name. It comes
/// first in the order and is listed as a whole, or under no name at all.
pub proof fn path_without_name_is_listed_as_a_whole(
    path: DirectoryPath,
    parent: Seq<u8>,
    name: Option<Vec<u8>>,
    key: Vec<u8>,
    listed: String,
    plain: String,
)
    requires
        path@.len() == 0 || path@ == seq![46u8] || path@ == seq![46u8, 46u8] || path@ == parent
            + seq![47u8, 46u8, 46u8],
        call_ensures(DirectoryPath::file_name, (&path,), name),
        call_ensures(DirectoryPath::key, (&path,), key),
        call_ensures(DirectoryPath::listed_name, (&path,), listed),
        call_ensures(DirectoryPath::plain_name, (&path,), plain),
    ensures
        name is None,
        key@.len() == 0,
        vstd::utf8::valid_utf8(path@) ==> path@ == vstd::utf8::encode_utf8(listed@),
        !vstd::utf8::valid_utf8(path@) ==> listed@ == lossy_text(path@),
        plain@.len() == 0,
{
    broadcast use vstd::utf8::decode_utf8_encode_utf8;

    if path@.len() < 3 {
        if path@.len() == 0 || path@ == seq![46u8] || path@ == seq![46u8, 46u8] {
            last_component_decides(Seq::empty(), path@);
        }
    }
    last_component_decides(parent, seq![46u8, 46u8]);
    assert(parent + seq![47u8] + seq![46u8, 46u8] == parent + seq![47u8, 46u8, 46u8]);
}

/// What is spelled is shown as it is spelled, and a copy of a path is shown like the path.
pub proof fn spelling_and_showing_agree(
    text: &str,
    path: DirectoryPath,
    copy: DirectoryPath,
    shown_path: String,
    shown_copy: String,
)
    requires
        call_ensures(DirectoryPath::from_text, (text,), path),
        call_ensures(DirectoryPath::duplicate, (&path,), copy),
        call_ensures(DirectoryPath::to_text, (&path,), shown_path),
        call_ensures(DirectoryPath::to_text, (&copy,), shown_copy),
    ensures
        path@ == vstd::utf8::encode_utf8(text@),
        copy@ == path@,
        shown_path@ == text@,
        shown_copy@ == text@,
{
    spelled_path_is_shown_as_spelled(text@);
}

/// Bytes that encode a text are shown as that text, others with replacement characters.
pub proof fn bytes_are_shown_as_what_they_encode(path: DirectoryPath, text: String)
    requires
        call_ensures(DirectoryPath::to_text, (&path,), text),
    ensures
        vstd::utf8::valid_utf8(path@) ==> vstd::utf8::encode_utf8(text@) == path@,
        !vstd::utf8::valid_utf8(path@) ==> text@ == lossy_text(path@),
{
    broadcast use vstd::utf8::decode_utf8_encode_utf8;

}

/// The list of no paths is empty, that of one path is the path, and each path more adds a comma, a
/// blank and the path.
pub proof fn list_grows_by_the_path(
    fewer: Vec<DirectoryPath>,
    more: Vec<DirectoryPath>,
    path: DirectoryPath,
    list: String,
    longer_list: String,
    text: String,
)
    requires
        more@ == fewer@.push(path),
        call_ensures(list_shown, (&fewer,), list),
        call_ensures(list_shown, (&more,), longer_list),
        call_ensures(DirectoryPath::to_text, (&path,), text),
    ensures
        fewer@.len() == 0 ==> list@.len() == 0 && longer_list@ == text@,
        fewer@.len() > 0 ==> longer_list@ == list@ + ", "@ + text@,
{
    let texts = all_shown(more@);
    assert(texts.drop_last() == all_shown(fewer@));
    assert(texts.last() == shown(path@));
    if fewer@.len() == 0 {
        assert(texts[0] == shown(path@));
    }
}

} // verus!
