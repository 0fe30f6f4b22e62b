//! Shell-like expansion of the directories that the user names: a leading `~` stands for the
//! home directory, `$NAME` and `${NAME}` for environment variables.

use crate::path::DirectoryPath;
use crate::subdirectories_picker::is_home;
use crate::text::encoding_is_piecewise;
use vstd::prelude::*;

verus! {

/// What `char::is_alphanumeric` tells of `c`: a letter or a number of Unicode.
pub uninterp spec fn alphanumeric_property(c: char) -> bool;

/// Whether `c` is a letter or a number. Among the ASCII characters these are `A` to `Z`, `a` to
/// `z` and `0` to `9`.
pub open spec fn is_alphanumeric(c: char) -> bool {
    if c <= '\u{7f}' {
        'A' <= c <= 'Z' || 'a' <= c <= 'z' || '0' <= c <= '9'
    } else {
        alphanumeric_property(c)
    }
}

/// `char::is_alphanumeric` of the standard library: tells whether a character is a letter or a
/// number. Of the ASCII characters the contract says which are; which others there are is left
/// to the Unicode tables.
pub assume_specification[ char::is_alphanumeric ](c: char) -> (alphanumeric: bool)
    ensures
        c <= '\u{7f}' ==> (alphanumeric <==> 'A' <= c <= 'Z' || 'a' <= c <= 'z' || '0' <= c <= '9'),
        c > '\u{7f}' ==> alphanumeric == alphanumeric_property(c),
;

/// The place of the first `}` in `text` at or behind `from`, or the length of `text`.
pub open spec fn brace_from(text: Seq<char>, from: int) -> int
    decreases text.len() - from,
{
    if from >= text.len() {
        text.len() as int
    } else if text[from] == '}' {
        from
    } else {
        brace_from(text, from + 1)
    }
}

/// Whether `c` may stand in the name of a variable.
pub open spec fn is_name_char(c: char) -> bool {
    c == '_' || is_alphanumeric(c)
}

/// The place of the first character in `text` at or behind `from` that ends the name of a
/// variable, or the length of `text`.
pub open spec fn name_end_from(text: Seq<char>, from: int) -> int
    decreases text.len() - from,
{
    if from >= text.len() {
        text.len() as int
    } else if !is_name_char(text[from]) {
        from
    } else {
        name_end_from(text, from + 1)
    }
}

/// What stands at a place of a text that is to be expanded.
pub enum Piece {
    /// A character that is kept.
    Plain,
    /// `$$`, which stands for `$`.
    Dollar,
    /// `$NAME`, `${NAME}` or `${NAME:-default}`, up to `end`. It is replaced by the value of the
    /// variable or, if it has none, by the default.
    Variable { end: int, has_default: bool },
    /// `$` in front of a letter or a number beyond ASCII. Such a name cannot be looked up unless it
    /// stands in braces.
    Odd,
}

/// Whether the variable whose braces open behind `at` and close at `close` has a default: `:-`
/// stands between them, and not right at the start, where the name has to be.
pub open spec fn has_default(text: Seq<char>, at: int, close: int) -> bool {
    &&& !(at + 3 < close && text[at + 2] == ':' && text[at + 3] == '-')
    &&& exists|i: int| at + 2 < i < close - 1 && #[trigger] text[i] == ':' && text[i + 1] == '-'
}

/// What stands at `at`.
pub open spec fn piece_at(text: Seq<char>, at: int) -> Piece {
    if text[at] != '$' || at + 1 >= text.len() {
        Piece::Plain
    } else if text[at + 1] == '$' {
        Piece::Dollar
    } else if text[at + 1] == '{' {
        let close = brace_from(text, at);
        if close < text.len() {
            Piece::Variable { end: close + 1, has_default: has_default(text, at, close) }
        } else {
            Piece::Plain
        }
    } else if !is_name_char(text[at + 1]) {
        Piece::Plain
    } else if text[at + 1] <= '\u{7f}' {
        Piece::Variable { end: name_end_from(text, at + 2), has_default: false }
    } else {
        Piece::Odd
    }
}

/// Where what stands at `at` ends.
pub open spec fn piece_end(text: Seq<char>, at: int) -> int {
    match piece_at(text, at) {
        Piece::Plain | Piece::Odd => at + 1,
        Piece::Dollar => at + 2,
        Piece::Variable { end, .. } => end,
    }
}

proof fn lemma_scans_advance(text: Seq<char>, from: int)
    requires
        0 <= from <= text.len(),
    ensures
        from <= brace_from(text, from) <= text.len(),
        brace_from(text, from) < text.len() ==> text[brace_from(text, from)] == '}',
        from <= name_end_from(text, from) <= text.len(),
    decreases text.len() - from,
{
    if from < text.len() {
        lemma_scans_advance(text, from + 1);
    }
}

/// What stands at a place ends behind it, within the text.
pub proof fn lemma_piece_advances(text: Seq<char>, at: int)
    ensures
        0 <= at < text.len() ==> at < piece_end(text, at) <= text.len(),
{
    if 0 <= at < text.len() {
        lemma_scans_advance(text, at);
        if at + 2 <= text.len() {
            lemma_scans_advance(text, at + 2);
        }
    }
}

/// Whether nothing stands in `text`, from `at` on, that cannot be looked up.
pub open spec fn expandable_from(text: Seq<char>, at: int) -> bool
    decreases text.len() - at,
{
    proof {
        lemma_piece_advances(text, at);
    }
    0 <= at < text.len() ==> {
        &&& !(piece_at(text, at) is Odd)
        &&& expandable_from(text, piece_end(text, at))
    }
}

/// Whether `text` can be expanded: every variable that stands in it without braces has a name
/// that starts with an ASCII character.
pub open spec fn expandable(text: Seq<char>) -> bool {
    expandable_from(text, 0)
}

/// The first place in `text`, from `at` on, of something that cannot be looked up, or the length of
/// `text`.
pub open spec fn odd_from(text: Seq<char>, at: int) -> int
    decreases text.len() - at,
{
    proof {
        lemma_piece_advances(text, at);
    }
    if !(0 <= at < text.len()) {
        text.len() as int
    } else if piece_at(text, at) is Odd {
        at
    } else {
        odd_from(text, piece_end(text, at))
    }
}

/// `text` up to the first thing in it that cannot be looked up.
pub open spec fn before_odd(text: Seq<char>) -> Seq<char> {
    text.take(odd_from(text, 0))
}

/// Whether a variable without a default stands in `text` from `at` on.
pub open spec fn needs_variable_from(text: Seq<char>, at: int) -> bool
    decreases text.len() - at,
{
    proof {
        lemma_piece_advances(text, at);
    }
    0 <= at < text.len() && {
        ||| piece_at(text, at) matches Piece::Variable { has_default: false, .. }
        ||| needs_variable_from(text, piece_end(text, at))
    }
}

/// `text` from `at` on, with `$$` replaced by `$` and each variable by what `values` holds for the
/// place where it stands.
pub open spec fn filled_from(text: Seq<char>, at: int, values: Map<int, Seq<char>>) -> Seq<char>
    decreases text.len() - at,
{
    proof {
        lemma_piece_advances(text, at);
    }
    if 0 <= at < text.len() {
        let replacement = match piece_at(text, at) {
            Piece::Variable { .. } => values[at],
            _ => seq![text[at]],
        };
        replacement + filled_from(text, piece_end(text, at), values)
    } else {
        Seq::empty()
    }
}

/// Whether `text` starts with `~` on its own or as the whole first component of a path.
pub open spec fn starts_at_home(text: Seq<char>) -> bool {
    text.len() > 0 && text[0] == '~' && (text.len() == 1 || text[1] == '/' || text[1] == '\\')
}

/// Whether `expansion` may be the expansion of `text`: for some values of the variables it is `text`
/// filled with them, but for a `~` that `text` itself starts with, in place of which there may be
/// something else.
pub open spec fn is_expansion(text: Seq<char>, expansion: Seq<char>) -> bool {
    exists|values: Map<int, Seq<char>>|
        {
            let filled = #[trigger] filled_from(text, 0, values);
            ||| expansion == filled
            ||| text[0] == '~' && starts_at_home(filled) && filled.skip(1).is_suffix_of(expansion)
        }
}

/// Whether `directory` may be what becomes of `text`, which starts with `~` on its own or ahead of a
/// `/`, where `home` is the home directory: that directory takes the place of the `~`, which stays
/// where there is none. How a home directory that is not valid text is written is left open.
pub open spec fn is_below_home(
    text: Seq<char>,
    home: Option<Vec<u8>>,
    directory: Seq<char>,
) -> bool {
    match home {
        Some(path) => vstd::utf8::valid_utf8(path@) ==> {
            let start = vstd::utf8::decode_utf8(path@);
            &&& start.is_prefix_of(directory)
            &&& !text.contains('$') ==> directory == start + text.skip(1)
        },
        None => {
            &&& directory.len() > 0 && directory[0] == '~'
            &&& !text.contains('$') ==> directory == text
        },
    }
}

/// `shellexpand::full`: expands a leading `~` to the home directory, which it asks `dirs::home_dir`
/// for, and variables to their values in the environment, and fails where a variable has neither a
/// value nor a default. Home directory and environment are the machine's, so the contract leaves
/// open what they hold, and with it which of the texts that need a variable fail. The call slices its input one byte behind the
/// `$`, which a longer first character of a name makes impossible; such input is left out.
#[verifier::external_body]
fn shell_expand(text: &str) -> (expansion: Option<String>)
    requires
        expandable(text@),
    ensures
        expansion matches Some(e) ==> is_expansion(text@, e@),
        expansion is None ==> needs_variable_from(text@, 0),
        expansion is Some && (text@ == seq!['~'] || text@.len() > 1 && text@[0] == '~' && text@[1]
            == '/') ==> (exists|home: Option<Vec<u8>>| #[trigger]
            is_home(home) && is_below_home(text@, home, expansion->0@)),
{
    shellexpand::full(text).ok().map(|expanded| expanded.into_owned())
}

/// Whether `expansion` is an outcome of `shell_expand` on `text`.
pub closed spec fn is_outcome(text: Seq<char>, expansion: Option<String>) -> bool {
    exists|given: &str| given@ == text && #[trigger] call_ensures(shell_expand, (given,), expansion)
}

/// Whether `directory` is what becomes of `text`: its expansion, or `text` as it stands where there
/// is none. There is none either where the variables ahead of a name that cannot be looked up
/// have failed, so that it is never come to.
pub open spec fn came_of(text: Seq<char>, directory: Seq<char>) -> bool {
    if expandable(text) {
        exists|expansion: Option<String>| #[trigger]
            is_outcome(text, expansion) && directory == (match expansion {
                Some(e) => e@,
                None => text,
            })
    } else {
        directory == text && is_outcome(before_odd(text), None)
    }
}

/// Whether the expansion of `text` comes to a name that cannot be looked up.
pub open spec fn meets_odd_name(text: Seq<char>) -> bool {
    !expandable(text) && exists|expansion: Option<String>| #[trigger]
        is_outcome(before_odd(text), expansion) && expansion is Some
}

/// The characters of `text`.
fn characters(text: &str) -> (all: Vec<char>)
    ensures
        all@ == text@,
{
    let mut all: Vec<char> = Vec::new();
    for c in chars: text.chars()
        invariant
            chars.seq() == text@,
            all@ == text@.take(chars.index() as int),
    {
        all.push(c);
    }
    all
}

/// The place of the first `}` at or behind `from`.
fn find_brace(text: &Vec<char>, from: usize) -> (place: usize)
    requires
        from <= text@.len(),
    ensures
        place == brace_from(text@, from as int),
        place <= text@.len(),
{
    let mut place: usize = from;
    while place < text.len() && text[place] != '}'
        invariant
            place <= text@.len(),
            brace_from(text@, from as int) == brace_from(text@, place as int),
        decreases text@.len() - place,
    {
        place += 1;
    }
    place
}

/// The place of the first character at or behind `from` that ends the name of a variable.
fn find_name_end(text: &Vec<char>, from: usize) -> (place: usize)
    requires
        from <= text@.len(),
    ensures
        place == name_end_from(text@, from as int),
        place <= text@.len(),
{
    let mut place: usize = from;
    while place < text.len() && (text[place] == '_' || text[place].is_alphanumeric())
        invariant
            place <= text@.len(),
            name_end_from(text@, from as int) == name_end_from(text@, place as int),
        decreases text@.len() - place,
    {
        place += 1;
    }
    place
}

/// Where what stands at `at` ends, or nothing where it cannot be looked up.
fn find_piece_end(text: &Vec<char>, at: usize) -> (end: Option<usize>)
    requires
        at < text@.len(),
    ensures
        end is None <==> piece_at(text@, at as int) is Odd,
        end matches Some(e) ==> e == piece_end(text@, at as int) && at < e <= text@.len(),
{
    proof {
        lemma_piece_advances(text@, at as int);
    }
    let length: usize = text.len();
    if text[at] != '$' || length - at == 1 {
        return Some(at + 1);
    }
    let next = text[at + 1];
    if next == '$' {
        return Some(at + 2);
    }
    if next == '{' {
        let close = find_brace(text, at);
        if close < length {
            return Some(close + 1);
        }
        return Some(at + 1);
    }
    if next != '_' && !next.is_alphanumeric() {
        return Some(at + 1);
    }
    if next > '\u{7f}' {
        return None;
    }
    Some(find_name_end(text, at + 2))
}

/// The first place of something that cannot be looked up, or the length of `text`.
fn find_odd(text: &str) -> (place: usize)
    ensures
        place == odd_from(text@, 0),
        place <= text@.len(),
        place == text@.len() <==> expandable(text@),
{
    let all = characters(text);
    let length: usize = all.len();
    let mut at: usize = 0;
    while at < length
        invariant
            all@ == text@,
            length == all@.len(),
            at <= length,
            expandable(text@) == expandable_from(text@, at as int),
            odd_from(text@, 0) == odd_from(text@, at as int),
        decreases length - at,
    {
        match find_piece_end(&all, at) {
            Some(end) => {
                at = end;
            },
            None => {
                return at;
            },
        }
    }
    at
}

/// Whether `text` can be expanded.
pub fn is_expandable(text: &str) -> (yes: bool)
    ensures
        yes == expandable(text@),
{
    find_odd(text) == text.unicode_len()
}

/// What a directory that is given as `text` is taken to be, once its expansion has been tried: the
/// expansion where there is one, and `text` as it stands where there is none.
pub fn expansion_or_text(text: &str, expansion: Option<String>) -> (directory: String)
    ensures
        expansion matches Some(e) ==> directory@ == e@,
        expansion is None ==> directory@ == text@,
{
    match expansion {
        Some(expanded) => expanded,
        None => text.to_owned(),
    }
}

/// What a directory that is given as `text` is taken to be, if the expansion of what comes ahead of a
/// name that cannot be looked up has the outcome `start`: `text` as it stands where there is none,
/// and nothing where there is one, since the name is then come to.
pub fn text_unless_expanded(text: &str, start: Option<String>) -> (directory: Option<String>)
    ensures
        directory is Some <==> start is None,
        directory matches Some(d) ==> d@ == text@,
{
    match start {
        Some(_) => None,
        None => Some(text.to_owned()),
    }
}

/// The directory that is given as `text`.
pub fn expand_path(text: &str) -> (directory: String)
    requires
        expandable(text@),
    ensures
        came_of(text@, directory@),
        is_expansion(text@, directory@) || needs_variable_from(text@, 0) && directory@ == text@,
{
    let expansion = shell_expand(text);
    assert(call_ensures(shell_expand, (text,), expansion));
    assert(is_outcome(text@, expansion));
    expansion_or_text(text, expansion)
}

/// The directory that is given as `text`, or nothing where its expansion comes to a name that cannot
/// be looked up.
pub fn try_expand_path(text: &str) -> (directory: Option<String>)
    ensures
        expandable(text@) ==> directory is Some,
        directory is None ==> meets_odd_name(text@),
        directory matches Some(d) ==> {
            &&& came_of(text@, d@)
            &&& is_expansion(text@, d@) || needs_variable_from(text@, 0) && d@ == text@
        },
{
    let odd = find_odd(text);
    if odd == text.unicode_len() {
        return Some(expand_path(text));
    }
    let start = text.substring_char(0, odd);
    proof {
        lemma_before_odd(text@, 0);
        assert(start@ == before_odd(text@));
    }
    let expansion = shell_expand(start);
    assert(call_ensures(shell_expand, (start,), expansion));
    assert(is_outcome(before_odd(text@), expansion));
    text_unless_expanded(text, expansion)
}

/// Whether `path` is that of a directory given as `text`.
pub open spec fn is_expanded(text: Seq<char>, path: Seq<u8>) -> bool {
    exists|directory: Seq<char>|
        came_of(text, directory) && path == #[trigger] vstd::utf8::encode_utf8(directory)
}

/// Whatever the home directory and the environment are, a directory is `text` with its variables
/// and its `~` replaced, or `text` itself; and the latter only if it needs a variable, so a text
/// in which every variable has a default is always expanded.
pub proof fn directory_is_expansion_or_text(text: Seq<char>, directory: Seq<char>)
    requires
        came_of(text, directory),
    ensures
        is_expansion(text, directory) || needs_variable_from(text, 0) && directory == text,
{
    if !expandable(text) {
        lemma_odd_is_behind(text, 0);
        lemma_before_odd(text, 0);
    }
}

proof fn lemma_odd_is_behind(text: Seq<char>, at: int)
    requires
        0 <= at <= text.len(),
    ensures
        at <= odd_from(text, at) <= text.len(),
    decreases text.len() - at,
{
    if at < text.len() && !(piece_at(text, at) is Odd) {
        lemma_piece_advances(text, at);
        lemma_odd_is_behind(text, piece_end(text, at));
    }
}

proof fn lemma_scans_of_start(text: Seq<char>, from: int, length: int)
    requires
        0 <= from <= length <= text.len(),
    ensures
        brace_from(text, from) < length ==> brace_from(text.take(length), from) == brace_from(
            text,
            from,
        ),
        brace_from(text, from) >= length ==> brace_from(text.take(length), from) == length,
        name_end_from(text, from) <= length ==> name_end_from(text.take(length), from)
            == name_end_from(text, from),
    decreases length - from,
{
    if from < length {
        assert(text.take(length)[from] == text[from]);
        lemma_scans_of_start(text, from + 1, length);
    } else {
        lemma_scans_advance(text, from);
    }
}

/// What comes ahead of the first thing that cannot be looked up reads the same on its own.
proof fn lemma_before_odd(text: Seq<char>, at: int)
    requires
        0 <= at <= odd_from(text, 0),
        odd_from(text, at) == odd_from(text, 0) <= text.len(),
    ensures
        expandable_from(before_odd(text), at),
        needs_variable_from(before_odd(text), at) ==> needs_variable_from(text, at),
    decreases odd_from(text, 0) - at,
{
    let odd = odd_from(text, 0);
    let start = before_odd(text);
    if at < odd {
        let end = piece_end(text, at);
        lemma_piece_advances(text, at);
        lemma_odd_is_behind(text, end);
        lemma_scans_advance(text, at);
        lemma_scans_of_start(text, at, odd);
        if at + 2 <= odd {
            lemma_scans_of_start(text, at + 2, odd);
        }
        assert(start[at] == text[at]);
        if at + 1 < odd {
            assert(start[at + 1] == text[at + 1]);
            let close = brace_from(text, at);
            if close < odd {
                assert(forall|i: int| 0 <= i < odd ==> start[i] == text[i]);
                if has_default(text, at, close) {
                    let i = choose|i: int|
                        at + 2 < i < close - 1 && #[trigger] text[i] == ':' && text[i + 1] == '-';
                    assert(start[i] == ':' && start[i + 1] == '-');
                }
                assert(has_default(text, at, close) == has_default(start, at, close));
            }
        }
        assert(piece_end(start, at) == end);
        lemma_before_odd(text, end);
    }
}

proof fn lemma_plain_from(text: Seq<char>, at: int, values: Map<int, Seq<char>>)
    requires
        0 <= at <= text.len(),
        !text.skip(at).contains('$'),
    ensures
        filled_from(text, at, values) == text.skip(at),
        !needs_variable_from(text, at),
    decreases text.len() - at,
{
    if at < text.len() {
        assert(text.skip(at)[0] == text[at]);
        assert(text[at] != '$');
        let rest = text.skip(at + 1);
        if rest.contains('$') {
            let i = choose|i: int| 0 <= i < rest.len() && rest[i] == '$';
            assert(text.skip(at)[i + 1] == '$');
        }
        lemma_plain_from(text, at + 1, values);
        assert(text.skip(at) == seq![text[at]] + text.skip(at + 1));
    } else {
        assert(text.skip(at) == Seq::<char>::empty());
    }
}

proof fn lemma_reaches_separator(
    text: Seq<char>,
    at: int,
    separator: int,
    values: Map<int, Seq<char>>,
)
    requires
        0 <= at <= separator < text.len(),
        text[separator] == '/',
        !text.skip(separator).contains('$'),
        !text.skip(separator).contains('}'),
    ensures
        text.skip(separator).is_suffix_of(filled_from(text, at, values)),
    decreases separator - at,
{
    if at == separator {
        lemma_plain_from(text, at, values);
    } else {
        let end = piece_end(text, at);
        lemma_piece_advances(text, at);
        assert(end <= separator) by {
            if text[at] == '$' {
                assert(text[at + 1] == '$' ==> at + 1 != separator);
                lemma_scans_advance(text, at);
                let close = brace_from(text, at);
                if separator <= close < text.len() {
                    assert(text.skip(separator)[close - separator] == '}');
                }
                if at + 2 <= separator {
                    lemma_name_ends(text, at + 2, separator);
                }
            }
        }
        lemma_reaches_separator(text, end, separator, values);
        let rest = filled_from(text, end, values);
        let whole = filled_from(text, at, values);
        assert(whole.subrange(whole.len() - rest.len(), whole.len() as int) == rest);
        assert(text.skip(separator) == whole.subrange(
            whole.len() - text.skip(separator).len(),
            whole.len() as int,
        ));
    }
}

proof fn lemma_name_ends(text: Seq<char>, from: int, place: int)
    requires
        0 <= from <= place < text.len(),
        !is_name_char(text[place]),
    ensures
        name_end_from(text, from) <= place,
    decreases place - from,
{
    if from < place {
        lemma_name_ends(text, from + 1, place);
    }
}

/// Whether all of `texts` can be expanded.
pub open spec fn all_expandable(texts: Seq<String>) -> bool {
    forall|i: int| 0 <= i < texts.len() ==> expandable((#[trigger] texts[i])@)
}

/// Whether `paths` are those of the directories given as `texts`, in their order.
pub open spec fn all_expanded(texts: Seq<String>, paths: Seq<DirectoryPath>) -> bool {
    &&& paths.len() == texts.len()
    &&& forall|i: int| 0 <= i < texts.len() ==> is_expanded(texts[i]@, (#[trigger] paths[i])@)
}

/// A directory in which neither `~` nor `$` is to be replaced is the one that is given.
pub proof fn plain_directory_is_as_given(text: Seq<char>, directory: Seq<char>)
    requires
        came_of(text, directory),
        !text.contains('$'),
        !starts_at_home(text),
    ensures
        directory == text,
{
    directory_is_expansion_or_text(text, directory);
    assert(text.skip(0) == text);
    assert forall|values: Map<int, Seq<char>>| #[trigger]
        filled_from(text, 0, values) == text by {
        lemma_plain_from(text, 0, values);
    }
    lemma_plain_from(text, 0, Map::empty());
}

/// `~` at the start of a directory stands for one thing or another, but what follows it is kept.
pub proof fn what_follows_home_is_kept(text: Seq<char>, directory: Seq<char>)
    requires
        came_of(text, directory),
        !text.contains('$'),
        starts_at_home(text),
    ensures
        text.skip(1).is_suffix_of(directory),
{
    directory_is_expansion_or_text(text, directory);
    assert(text.skip(0) == text);
    assert forall|values: Map<int, Seq<char>>| #[trigger]
        filled_from(text, 0, values) == text by {
        lemma_plain_from(text, 0, values);
    }
    assert(text.skip(1).is_suffix_of(text));
}

/// `$$` stands for `$`.
pub proof fn doubled_dollar_is_one(before: Seq<char>, after: Seq<char>, directory: Seq<char>)
    requires
        came_of(before + seq!['$', '$'] + after, directory),
        !before.contains('$'),
        !after.contains('$'),
        !starts_at_home(before + seq!['$', '$'] + after),
    ensures
        directory == before + seq!['$'] + after,
{
    let text = before + seq!['$', '$'] + after;
    directory_is_expansion_or_text(text, directory);
    assert forall|values: Map<int, Seq<char>>| #[trigger]
        filled_from(text, 0, values) == before + seq!['$'] + after by {
        lemma_doubled_dollar(before, after, 0, values);
        assert(before.skip(0) == before);
    }
    lemma_doubled_dollar(before, after, 0, Map::empty());
    assert(before.skip(0) == before);
}

proof fn lemma_doubled_dollar(
    before: Seq<char>,
    after: Seq<char>,
    at: int,
    values: Map<int, Seq<char>>,
)
    requires
        !before.contains('$'),
        !after.contains('$'),
        0 <= at <= before.len(),
    ensures
        filled_from(before + seq!['$', '$'] + after, at, values) == before.skip(at) + seq!['$']
            + after,
        !needs_variable_from(before + seq!['$', '$'] + after, at),
    decreases before.len() - at,
{
    let text = before + seq!['$', '$'] + after;
    if at < before.len() {
        assert(text[at] == before[at]);
        assert(before.contains(before[at]));
        lemma_doubled_dollar(before, after, at + 1, values);
        assert(before.skip(at) == seq![before[at]] + before.skip(at + 1));
        assert(filled_from(text, at, values) == seq![text[at]] + filled_from(text, at + 1, values));
    } else {
        assert(text[at] == '$' && text[at + 1] == '$');
        assert(text.skip(at + 2) == after);
        lemma_plain_from(text, at + 2, values);
        assert(before.skip(at) == Seq::<char>::empty());
    }
}

/// The components of a directory behind the last variable are those that are given, from any of
/// their separators on.
pub proof fn trailing_components_are_kept(text: Seq<char>, path: Seq<u8>, separator: int)
    requires
        is_expanded(text, path),
        0 <= separator < text.len(),
        text[separator] == '/',
        !text.skip(separator).contains('$'),
        !text.skip(separator).contains('}'),
    ensures
        vstd::utf8::encode_utf8(text.skip(separator)).is_suffix_of(path),
{
    let directory = choose|directory: Seq<char>|
        came_of(text, directory) && path == #[trigger] vstd::utf8::encode_utf8(directory);
    let tail = text.skip(separator);
    directory_is_expansion_or_text(text, directory);
    assert(tail.is_suffix_of(text));
    if is_expansion(text, directory) {
        let values = choose|values: Map<int, Seq<char>>|
            {
                let filled = #[trigger] filled_from(text, 0, values);
                ||| directory == filled
                ||| text[0] == '~' && starts_at_home(filled) && filled.skip(1).is_suffix_of(
                    directory,
                )
            };
        let filled = filled_from(text, 0, values);
        lemma_reaches_separator(text, 0, separator, values);
        if directory != filled {
            assert(tail[0] == '/');
            if tail.len() == filled.len() {
                assert(tail == filled);
            }
            let rest = filled.skip(1);
            assert(tail == rest.subrange(rest.len() - tail.len(), rest.len() as int));
            assert(rest == directory.subrange(
                directory.len() - rest.len(),
                directory.len() as int,
            ));
            assert(tail == directory.subrange(
                directory.len() - tail.len(),
                directory.len() as int,
            ));
        }
    }
    assert(tail.is_suffix_of(directory));
    let head = directory.take(directory.len() - tail.len());
    assert(directory == head + tail);
    encoding_is_piecewise(head, tail);
    assert(vstd::utf8::encode_utf8(tail).is_suffix_of(path));
}

/// Whether the expansion of one of `texts` comes to a name that cannot be looked up.
pub open spec fn one_meets_odd_name(texts: Seq<String>) -> bool {
    exists|i: int| 0 <= i < texts.len() && meets_odd_name((#[trigger] texts[i])@)
}

proof fn lemma_one_more_expanded(
    texts: Seq<String>,
    paths: Seq<DirectoryPath>,
    path: DirectoryPath,
    i: int,
)
    requires
        0 <= i < texts.len(),
        all_expanded(texts.take(i), paths),
        is_expanded(texts[i]@, path@),
    ensures
        all_expanded(texts.take(i + 1), paths.push(path)),
{
    assert forall|j: int| 0 <= j <= i implies is_expanded(
        texts.take(i + 1)[j]@,
        (#[trigger] paths.push(path)[j])@,
    ) by {
        if j < i {
            assert(paths.push(path)[j] == paths[j]);
            assert(texts.take(i + 1)[j] == texts.take(i)[j]);
        }
    }
}

/// The paths of the directories that are given as `texts`.
pub fn expand_directories(texts: &Vec<String>) -> (paths: Vec<DirectoryPath>)
    requires
        all_expandable(texts@),
    ensures
        all_expanded(texts@, paths@),
{
    let mut paths: Vec<DirectoryPath> = Vec::new();
    let mut i: usize = 0;
    while i < texts.len()
        invariant
            i <= texts@.len(),
            all_expandable(texts@),
            all_expanded(texts@.take(i as int), paths@),
        decreases texts@.len() - i,
    {
        let expansion = expand_path(texts[i].as_str());
        let path = DirectoryPath::from_text(expansion.as_str());
        assert(is_expanded(texts@[i as int]@, path@));
        let ghost earlier = paths@;
        paths.push(path);
        i += 1;
        proof {
            lemma_one_more_expanded(texts@, earlier, path, i - 1);
        }
    }
    assert(texts@.take(i as int) == texts@);
    paths
}

/// Whether all of `texts` can be expanded.
pub fn are_expandable(texts: &Vec<String>) -> (yes: bool)
    ensures
        yes == all_expandable(texts@),
{
    let mut i: usize = 0;
    while i < texts.len()
        invariant
            i <= texts@.len(),
            forall|j: int| 0 <= j < i ==> expandable((#[trigger] texts@[j])@),
        decreases texts@.len() - i,
    {
        if !is_expandable(texts[i].as_str()) {
            return false;
        }
        i += 1;
    }
    true
}

/// The paths of the directories that are given as `texts`, or nothing where the expansion of one of
/// them comes to a name that cannot be looked up.
pub fn try_expand_directories(texts: &Vec<String>) -> (paths: Option<Vec<DirectoryPath>>)
    ensures
        all_expandable(texts@) ==> paths is Some,
        paths is None ==> one_meets_odd_name(texts@),
        paths matches Some(p) ==> all_expanded(texts@, p@),
{
    let mut paths: Vec<DirectoryPath> = Vec::new();
    let mut i: usize = 0;
    while i < texts.len()
        invariant
            i <= texts@.len(),
            all_expanded(texts@.take(i as int), paths@),
        decreases texts@.len() - i,
    {
        let directory = match try_expand_path(texts[i].as_str()) {
            Some(directory) => directory,
            None => {
                assert(meets_odd_name(texts@[i as int]@));
                return None;
            },
        };
        let path = DirectoryPath::from_text(directory.as_str());
        assert(is_expanded(texts@[i as int]@, path@));
        let ghost earlier = paths@;
        paths.push(path);
        i += 1;
        proof {
            lemma_one_more_expanded(texts@, earlier, path, i - 1);
        }
    }
    assert(texts@.take(i as int) == texts@);
    Some(paths)
}

/// An outcome is what a call of `shell_expand` on that very text has handed back.
proof fn outcomes_come_from_the_call(text: Seq<char>, expansion: Option<String>)
    requires
        is_outcome(text, expansion),
    ensures
        exists|given: &str|
            given@ == text && #[trigger] call_ensures(shell_expand, (given,), expansion),
{
}

/// The expansion of a text without variables never fails.
pub proof fn plain_text_has_an_outcome(text: Seq<char>, expansion: Option<String>)
    requires
        is_outcome(text, expansion),
        !text.contains('$'),
    ensures
        expansion is Some,
{
    assert(text.skip(0) == text);
    lemma_plain_from(text, 0, Map::empty());
    outcomes_come_from_the_call(text, expansion);
}

/// A directory is the expansion of its text, or the text where that has none. Where the text cannot
/// be expanded, the directory is the text, and what comes ahead of the name that cannot be looked up
/// has no expansion.
pub proof fn directory_is_an_outcome(text: Seq<char>, directory: Seq<char>)
    requires
        came_of(text, directory),
    ensures
        expandable(text) ==> exists|expansion: Option<String>| #[trigger]
            is_outcome(text, expansion) && (expansion matches Some(e) ==> directory == e@) && (
            expansion is None ==> directory == text),
        !expandable(text) ==> directory == text && is_outcome(before_odd(text), None),
{
}

/// The path of a directory spells what came of its text.
pub proof fn path_spells_what_came_of_the_text(text: Seq<char>, path: Seq<u8>)
    requires
        is_expanded(text, path),
    ensures
        exists|directory: Seq<char>|
            came_of(text, directory) && path == #[trigger] vstd::utf8::encode_utf8(directory),
{
}

/// In a text in which every `$` stands at the end, in front of an ASCII character or in front of what
/// is neither a letter nor a number, there is nothing that cannot be looked up.
pub proof fn ascii_names_can_be_looked_up(text: Seq<char>)
    requires
        forall|i: int|
            0 <= i < text.len() - 1 && #[trigger] text[i] == '$' ==> text[i + 1] <= '\u{7f}'
                || !alphanumeric_property(text[i + 1]),
    ensures
        expandable(text),
{
    lemma_ascii_names(text, 0);
}

proof fn lemma_ascii_names(text: Seq<char>, at: int)
    requires
        0 <= at <= text.len(),
        forall|i: int|
            0 <= i < text.len() - 1 && #[trigger] text[i] == '$' ==> text[i + 1] <= '\u{7f}'
                || !alphanumeric_property(text[i + 1]),
    ensures
        expandable_from(text, at),
    decreases text.len() - at,
{
    if at < text.len() {
        assert(text[at] == '$' ==> at + 1 >= text.len() || text[at + 1] <= '\u{7f}'
            || !alphanumeric_property(text[at + 1]));
        lemma_piece_advances(text, at);
        lemma_ascii_names(text, piece_end(text, at));
    }
}

/// What stands in braces can be looked up, whatever it is.
pub proof fn names_in_braces_can_be_looked_up(
    before: Seq<char>,
    name: Seq<char>,
    after: Seq<char>,
)
    requires
        !before.contains('$'),
        !name.contains('}'),
        !after.contains('$'),
    ensures
        expandable(before + seq!['$', '{'] + name + seq!['}'] + after),
{
    lemma_name_in_braces(before, name, after, 0);
}

proof fn lemma_name_in_braces(before: Seq<char>, name: Seq<char>, after: Seq<char>, at: int)
    requires
        !before.contains('$'),
        !name.contains('}'),
        !after.contains('$'),
        0 <= at <= before.len(),
    ensures
        expandable_from(before + seq!['$', '{'] + name + seq!['}'] + after, at),
    decreases before.len() - at,
{
    let text = before + seq!['$', '{'] + name + seq!['}'] + after;
    if at < before.len() {
        assert(text[at] == before[at]);
        assert(before.contains(before[at]));
        lemma_name_in_braces(before, name, after, at + 1);
    } else {
        let close = before.len() as int + 2 + name.len();
        assert(text[at] == '$' && text[at + 1] == '{');
        assert(text[close] == '}');
        assert forall|i: int| at <= i < close implies text[i] != '}' by {
            if i >= at + 2 {
                assert(text[i] == name[i - at - 2]);
                assert(name.contains(name[i - at - 2]));
            }
        }
        lemma_brace_is_found(text, at, close);
        assert(text.skip(close + 1) == after);
        lemma_no_dollar_is_expandable(text, close + 1);
    }
}

proof fn lemma_brace_is_found(text: Seq<char>, from: int, close: int)
    requires
        0 <= from <= close < text.len(),
        text[close] == '}',
        forall|i: int| from <= i < close ==> text[i] != '}',
    ensures
        brace_from(text, from) == close,
    decreases close - from,
{
    if from < close {
        lemma_brace_is_found(text, from + 1, close);
    }
}

proof fn lemma_no_dollar_is_expandable(text: Seq<char>, at: int)
    requires
        0 <= at <= text.len(),
        !text.skip(at).contains('$'),
    ensures
        expandable_from(text, at),
    decreases text.len() - at,
{
    if at < text.len() {
        assert(text.skip(at)[0] == text[at]);
        let rest = text.skip(at + 1);
        if rest.contains('$') {
            let i = choose|i: int| 0 <= i < rest.len() && rest[i] == '$';
            assert(text.skip(at)[i + 1] == '$');
        }
        lemma_no_dollar_is_expandable(text, at + 1);
    }
}

/// A letter or number beyond ASCII right behind a `$` cannot be looked up. What comes ahead of it is
/// all that is tried, provided that each `$` in there stands for a variable with an ASCII name.
pub proof fn odd_names_cannot_be_looked_up(before: Seq<char>, odd: char, after: Seq<char>)
    requires
        odd > '\u{7f}',
        alphanumeric_property(odd),
        forall|i: int|
            0 <= i < before.len() && #[trigger] before[i] == '$' ==> i + 1 < before.len()
                && before[i + 1] <= '\u{7f}' && before[i + 1] != '$' && before[i + 1] != '{',
    ensures
        !expandable(before + seq!['$', odd] + after),
        before_odd(before + seq!['$', odd] + after) == before,
{
    let text = before + seq!['$', odd] + after;
    lemma_odd_name(before, odd, after, 0);
    assert(text.take(before.len() as int) == before);
}

proof fn lemma_odd_name(before: Seq<char>, odd: char, after: Seq<char>, at: int)
    requires
        odd > '\u{7f}',
        alphanumeric_property(odd),
        forall|i: int|
            0 <= i < before.len() && #[trigger] before[i] == '$' ==> i + 1 < before.len()
                && before[i + 1] <= '\u{7f}' && before[i + 1] != '$' && before[i + 1] != '{',
        0 <= at <= before.len(),
    ensures
        !expandable_from(before + seq!['$', odd] + after, at),
        odd_from(before + seq!['$', odd] + after, at) == before.len(),
    decreases before.len() - at,
{
    let text = before + seq!['$', odd] + after;
    let length = before.len() as int;
    assert(text[length] == '$');
    assert(text[length + 1] == odd);
    if at < length {
        assert(text[at] == before[at]);
        if before[at] == '$' {
            assert(text[at + 1] == before[at + 1]);
            lemma_name_ends(text, at + 2, length);
        }
        lemma_piece_advances(text, at);
        lemma_odd_name(before, odd, after, piece_end(text, at));
    }
}

/// Whether a text can be expanded is told from how its variables are named.
pub proof fn odd_names_are_told(
    text: &str,
    before: Seq<char>,
    odd: char,
    after: Seq<char>,
    yes: bool,
)
    requires
        call_ensures(is_expandable, (text,), yes),
    ensures
        (forall|i: int|
            0 <= i < text@.len() - 1 && #[trigger] text@[i] == '$' ==> text@[i + 1] <= '\u{7f}'
                || !alphanumeric_property(text@[i + 1])) ==> yes,
        text@ == before + seq!['$', odd] + after && !before.contains('$') && odd > '\u{7f}'
            && alphanumeric_property(odd) ==> !yes,
{
    if forall|i: int|
        0 <= i < text@.len() - 1 && #[trigger] text@[i] == '$' ==> text@[i + 1] <= '\u{7f}'
            || !alphanumeric_property(text@[i + 1]) {
        ascii_names_can_be_looked_up(text@);
    }
    if text@ == before + seq!['$', odd] + after && !before.contains('$') && odd > '\u{7f}'
        && alphanumeric_property(odd) {
        assert(forall|i: int| 0 <= i < before.len() ==> before.contains(#[trigger] before[i]));
        odd_names_cannot_be_looked_up(before, odd, after);
    }
}

/// In front of a name that cannot be looked up, the variables decide: the text is kept if they have no
/// expansion, and if they have one there is no directory.
pub proof fn variables_ahead_of_an_odd_name_decide(
    text: &str,
    before: Seq<char>,
    odd: char,
    after: Seq<char>,
    directory: Option<String>,
)
    requires
        text@ == before + seq!['$', odd] + after,
        odd > '\u{7f}',
        alphanumeric_property(odd),
        forall|i: int|
            0 <= i < before.len() && #[trigger] before[i] == '$' ==> i + 1 < before.len()
                && before[i + 1] <= '\u{7f}' && before[i + 1] != '$' && before[i + 1] != '{',
        call_ensures(try_expand_path, (text,), directory),
    ensures
        directory is None ==> exists|expansion: Option<String>| #[trigger]
            is_outcome(before, expansion) && expansion is Some,
        directory is Some ==> directory->0@ == text@ && is_outcome(before, None),
        !before.contains('$') ==> directory is None,
{
    odd_names_cannot_be_looked_up(before, odd, after);
    if !before.contains('$') {
        assert(before.skip(0) == before);
        lemma_plain_from(before, 0, Map::empty());
    }
}

/// The home directory takes the place of a `~` that a directory starts with, on its own or ahead of a
/// `/`, and what follows is kept as far as it holds no variables. The `~` stays only where the user
/// has no home directory, or where the text as a whole is kept for want of a variable.
pub proof fn home_takes_the_place_of_the_tilde(text: Seq<char>, directory: Seq<char>)
    requires
        came_of(text, directory),
        text == seq!['~'] || text.len() > 1 && text[0] == '~' && text[1] == '/',
    ensures
        text.contains('$') && directory == text || exists|home: Option<Vec<u8>>| #[trigger]
            is_home(home) && (home is None ==> directory.len() > 0 && directory[0] == '~' && (
            !text.contains('$') ==> directory == text)) && (home matches Some(path) ==> vstd::utf8::valid_utf8(path@) ==> vstd::utf8::decode_utf8(
                path@,
            ).is_prefix_of(directory) && (!text.contains('$') ==> directory
                == vstd::utf8::decode_utf8(path@) + text.skip(1))),
{
    assert(text.skip(0) == text);
    if !text.contains('$') {
        lemma_plain_from(text, 0, Map::empty());
        lemma_no_dollar_is_expandable(text, 0);
    }
    if expandable(text) {
        let expansion = choose|expansion: Option<String>| #[trigger]
            is_outcome(text, expansion) && directory == (match expansion {
                Some(e) => e@,
                None => text,
            });
        outcomes_come_from_the_call(text, expansion);
        if expansion is Some {
            let given = choose|given: &str|
                given@ == text && #[trigger] call_ensures(shell_expand, (given,), expansion);
            let home = choose|home: Option<Vec<u8>>| #[trigger]
                is_home(home) && is_below_home(given@, home, expansion->0@);
            assert(is_home(home));
        }
    }
}

/// The same of the path: it is that of the home directory followed by what follows the `~`.
pub proof fn path_starts_at_home(text: Seq<char>, path: Seq<u8>)
    requires
        is_expanded(text, path),
        text == seq!['~'] || text.len() > 1 && text[0] == '~' && text[1] == '/',
        !text.contains('$'),
    ensures
        exists|home: Option<Vec<u8>>| #[trigger]
            is_home(home) && (home is None ==> path == vstd::utf8::encode_utf8(text)) && (
            home matches Some(start) ==> vstd::utf8::valid_utf8(start@) ==> path == start@
                + vstd::utf8::encode_utf8(text.skip(1))),
{
    broadcast use vstd::utf8::decode_utf8_encode_utf8;

    path_spells_what_came_of_the_text(text, path);
    let directory = choose|directory: Seq<char>|
        came_of(text, directory) && path == #[trigger] vstd::utf8::encode_utf8(directory);
    home_takes_the_place_of_the_tilde(text, directory);
    let home = choose|home: Option<Vec<u8>>| #[trigger]
        is_home(home) && (home is None ==> directory.len() > 0 && directory[0] == '~' && (
        !text.contains('$') ==> directory == text)) && (home matches Some(path) ==> vstd::utf8::valid_utf8(path@) ==> vstd::utf8::decode_utf8(path@).is_prefix_of(
            directory,
        ) && (!text.contains('$') ==> directory == vstd::utf8::decode_utf8(path@) + text.skip(1)));
    assert(is_home(home));
    if let Some(start) = home {
        encoding_is_piecewise(vstd::utf8::decode_utf8(start@), text.skip(1));
    }
}

/// The path of a directory that is given without `~` in front and without variables is spelled as it
/// is given.
pub proof fn path_of_plain_text_is_as_spelled(text: Seq<char>, path: Seq<u8>)
    requires
        is_expanded(text, path),
        !text.contains('$'),
        text.len() == 0 || text[0] != '~',
    ensures
        path == vstd::utf8::encode_utf8(text),
{
    path_spells_what_came_of_the_text(text, path);
    let directory = choose|directory: Seq<char>|
        came_of(text, directory) && path == #[trigger] vstd::utf8::encode_utf8(directory);
    plain_directory_is_as_given(text, directory);
}

/// The paths of directories are as many as these, each made of the text in its place: one that can be
/// expanded spells an outcome of `shell_expand` on it, or the text where there is no expansion.
pub proof fn paths_are_made_of_the_texts(texts: Seq<String>, paths: Seq<DirectoryPath>, i: int)
    requires
        all_expanded(texts, paths),
        0 <= i < texts.len(),
    ensures
        paths.len() == texts.len(),
        is_expanded(texts[i]@, paths[i]@),
        expandable(texts[i]@) ==> exists|expansion: Option<String>| #[trigger]
            is_outcome(texts[i]@, expansion) && (expansion matches Some(e) ==> paths[i]@
                == vstd::utf8::encode_utf8(e@)) && (expansion is None ==> paths[i]@
                == vstd::utf8::encode_utf8(texts[i]@)),
        !expandable(texts[i]@) ==> paths[i]@ == vstd::utf8::encode_utf8(texts[i]@) && is_outcome(
            before_odd(texts[i]@),
            None,
        ),
{
    let text = texts[i]@;
    assert(is_expanded(text, paths[i]@));
    path_spells_what_came_of_the_text(text, paths[i]@);
    let directory = choose|directory: Seq<char>|
        came_of(text, directory) && paths[i]@ == #[trigger] vstd::utf8::encode_utf8(directory);
    directory_is_an_outcome(text, directory);
    if expandable(text) {
        let expansion = choose|expansion: Option<String>| #[trigger]
            is_outcome(text, expansion) && (expansion matches Some(e) ==> directory == e@) && (
            expansion is None ==> directory == text);
        assert(is_outcome(text, expansion));
    }
}

/// Each directory that the user names is expanded: `~` to the home directory, with what follows it
/// kept, and anything else to what `shell_expand` makes of it.
pub proof fn named_directories_are_expanded(
    texts: Vec<String>,
    paths: Vec<DirectoryPath>,
    i: int,
)
    requires
        call_ensures(expand_directories, (&texts,), paths) || call_ensures(
            try_expand_directories,
            (&texts,),
            Some(paths),
        ),
        0 <= i < texts@.len(),
    ensures
        all_expanded(texts@, paths@),
        paths@.len() == texts@.len(),
        !texts@[i]@.contains('$') && (texts@[i]@ == seq!['~'] || texts@[i]@.len() > 1
            && texts@[i]@[0] == '~' && texts@[i]@[1] == '/') ==> exists|home: Option<Vec<u8>>|
         #[trigger]
            is_home(home) && (home is None ==> paths@[i]@ == vstd::utf8::encode_utf8(texts@[i]@))
                && (home matches Some(start) ==> vstd::utf8::valid_utf8(start@) ==> paths@[i]@
                == start@ + vstd::utf8::encode_utf8(texts@[i]@.skip(1))),
        !texts@[i]@.contains('$') && (texts@[i]@.len() == 0 || texts@[i]@[0] != '~') ==> paths@[i]@
            == vstd::utf8::encode_utf8(texts@[i]@),
        expandable(texts@[i]@) ==> exists|expansion: Option<String>| #[trigger]
            is_outcome(texts@[i]@, expansion) && (expansion matches Some(e) ==> paths@[i]@
                == vstd::utf8::encode_utf8(e@)) && (expansion is None ==> paths@[i]@
                == vstd::utf8::encode_utf8(texts@[i]@)),
{
    let text = texts@[i]@;
    paths_are_made_of_the_texts(texts@, paths@, i);
    if !text.contains('$') {
        if text == seq!['~'] || text.len() > 1 && text[0] == '~' && text[1] == '/' {
            path_starts_at_home(text, paths@[i]@);
        }
        if text.len() == 0 || text[0] != '~' {
            path_of_plain_text_is_as_spelled(text, paths@[i]@);
        }
    }
}

/// A single directory is expanded as one in a list is: its path spells the same kinds of texts.
pub proof fn single_directory_is_expanded(text: &str, directory: String)
    requires
        call_ensures(expand_path, (text,), directory) || call_ensures(
            try_expand_path,
            (text,),
            Some(directory),
        ),
    ensures
        came_of(text@, directory@),
        is_expanded(text@, vstd::utf8::encode_utf8(directory@)),
        expandable(text@) ==> exists|expansion: Option<String>| #[trigger]
            is_outcome(text@, expansion) && (expansion matches Some(e) ==> directory@ == e@) && (
            expansion is None ==> directory@ == text@),
        !text@.contains('$') && (text@.len() == 0 || text@[0] != '~') ==> directory@ == text@,
{
    directory_is_an_outcome(text@, directory@);
    if !text@.contains('$') && (text@.len() == 0 || text@[0] != '~') {
        plain_directory_is_as_given(text@, directory@);
    }
}

/// An expansion that was found is the directory, and the text is where none was.
pub proof fn expansion_comes_ahead_of_the_text(
    text: &str,
    expansion: String,
    found: String,
    kept: String,
)
    requires
        call_ensures(expansion_or_text, (text, Some(expansion)), found),
        call_ensures(expansion_or_text, (text, None), kept),
    ensures
        found@ == expansion@,
        kept@ == text@,
{
}

/// A text is expanded where it is told to be expandable, and a list where each of its texts is; it is
/// told to be so exactly then.
pub proof fn lists_are_expandable_text_by_text(
    texts: Vec<String>,
    given: Seq<&str>,
    each: Seq<bool>,
    all: bool,
)
    requires
        given.len() == texts@.len(),
        each.len() == texts@.len(),
        forall|i: int|
            0 <= i < texts@.len() ==> (#[trigger] given[i])@ == texts@[i]@ && call_ensures(
                is_expandable,
                (given[i],),
                each[i],
            ),
        call_ensures(are_expandable, (&texts,), all),
    ensures
        all <==> forall|i: int| 0 <= i < texts@.len() ==> #[trigger] each[i],
        all ==> call_requires(expand_directories, (&texts,)),
        forall|i: int|
            0 <= i < texts@.len() && each[i] ==> call_requires(
                expand_path,
                (#[trigger] given[i],),
            ),
{
    assert forall|i: int| 0 <= i < texts@.len() implies (#[trigger] each[i]) == expandable(
        texts@[i]@,
    ) by {
        assert(given[i]@ == texts@[i]@);
    }
    if all {
        assert forall|i: int| 0 <= i < texts@.len() implies #[trigger] each[i] by {
            assert(expandable(texts@[i]@));
        }
    }
    if forall|i: int| 0 <= i < texts@.len() ==> #[trigger] each[i] {
        assert forall|i: int| 0 <= i < texts@.len() implies expandable((#[trigger] texts@[i])@) by {
            assert(each[i]);
        }
    }
}

/// Texts in which every `$` stands at the end, in front of an ASCII character or in front of what is
/// neither a letter nor a number always give directories.
pub proof fn ordinary_texts_give_directories(
    text: &str,
    texts: Vec<String>,
    directory: Option<String>,
    paths: Option<Vec<DirectoryPath>>,
)
    requires
        forall|i: int|
            0 <= i < text@.len() - 1 && #[trigger] text@[i] == '$' ==> text@[i + 1] <= '\u{7f}'
                || !alphanumeric_property(text@[i + 1]),
        forall|k: int, i: int|
            0 <= k < texts@.len() && 0 <= i < texts@[k]@.len() - 1 && #[trigger] texts@[k]@[i]
                == '$' ==> texts@[k]@[i + 1] <= '\u{7f}' || !alphanumeric_property(
                texts@[k]@[i + 1],
            ),
        call_ensures(try_expand_path, (text,), directory),
        call_ensures(try_expand_directories, (&texts,), paths),
    ensures
        call_requires(expand_path, (text,)),
        call_requires(expand_directories, (&texts,)),
        directory is Some,
        paths is Some,
        all_expandable(texts@),
{
    ascii_names_can_be_looked_up(text@);
    assert forall|k: int| 0 <= k < texts@.len() implies expandable((#[trigger] texts@[k])@) by {
        ascii_names_can_be_looked_up(texts@[k]@);
    }
}

/// No directories are given for a list only if the expansion of one of its texts, as far as it can be
/// looked up, has come to a name that cannot.
pub proof fn directories_are_missing_for_odd_names_only(
    texts: Vec<String>,
    paths: Option<Vec<DirectoryPath>>,
)
    requires
        call_ensures(try_expand_directories, (&texts,), paths),
    ensures
        paths is None ==> exists|i: int, expansion: Option<String>|
            0 <= i < texts@.len() && !expandable((#[trigger] texts@[i])@) && #[trigger] is_outcome(
                before_odd(texts@[i]@),
                expansion,
            ) && expansion is Some,
{
    if paths is None {
        let i = choose|i: int| 0 <= i < texts@.len() && meets_odd_name((#[trigger] texts@[i])@);
        let expansion = choose|expansion: Option<String>| #[trigger]
            is_outcome(before_odd(texts@[i]@), expansion) && expansion is Some;
        assert(is_outcome(before_odd(texts@[i]@), expansion));
    }
}

/// A name that cannot be looked up, with no variable ahead of it, leaves the whole list without
/// directories.
pub proof fn one_odd_name_is_enough(
    texts: Vec<String>,
    paths: Option<Vec<DirectoryPath>>,
    k: int,
    before: Seq<char>,
    odd: char,
    after: Seq<char>,
)
    requires
        call_ensures(try_expand_directories, (&texts,), paths),
        0 <= k < texts@.len(),
        texts@[k]@ == before + seq!['$', odd] + after,
        !before.contains('$'),
        odd > '\u{7f}',
        alphanumeric_property(odd),
    ensures
        paths is None,
{
    assert(forall|i: int| 0 <= i < before.len() ==> before.contains(#[trigger] before[i]));
    odd_names_cannot_be_looked_up(before, odd, after);
    if let Some(p) = paths {
        paths_are_made_of_the_texts(texts@, p@, k);
        plain_text_has_an_outcome(before, None);
    }
}

} // verus!
