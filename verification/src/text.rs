//! Text: what counts as white space or as a capital letter, how bytes are shown, and how
//! messages are put together.

use vstd::prelude::*;

verus! {

/// Whether `c` has the Unicode property `White_Space`.
pub open spec fn is_white_space(c: char) -> bool {
    ||| '\u{9}' <= c <= '\u{d}'
    ||| c == '\u{20}'
    ||| c == '\u{85}'
    ||| c == '\u{a0}'
    ||| c == '\u{1680}'
    ||| '\u{2000}' <= c <= '\u{200a}'
    ||| c == '\u{2028}'
    ||| c == '\u{2029}'
    ||| c == '\u{202f}'
    ||| c == '\u{205f}'
    ||| c == '\u{3000}'
}

/// `text` without the white space that it starts with.
pub open spec fn trimmed_start(text: Seq<char>) -> Seq<char>
    decreases text.len(),
{
    if text.len() > 0 && is_white_space(text.first()) {
        trimmed_start(text.drop_first())
    } else {
        text
    }
}

/// `text` without the white space that it ends in.
pub open spec fn trimmed_end(text: Seq<char>) -> Seq<char>
    decreases text.len(),
{
    if text.len() > 0 && is_white_space(text.last()) {
        trimmed_end(text.drop_last())
    } else {
        text
    }
}

/// `text` without the white space at either end.
pub open spec fn trimmed(text: Seq<char>) -> Seq<char> {
    trimmed_end(trimmed_start(text))
}

/// `str::trim_start` of the standard library: hands back the text from its first character
/// that is not Unicode white space on.
pub assume_specification[ str::trim_start ](text: &str) -> (rest: &str)
    ensures
        rest@ == trimmed_start(text@),
;

/// `str::trim` of the standard library: hands back the text between its first and its last
/// character that is not Unicode white space, both kept.
pub assume_specification[ str::trim ](text: &str) -> (middle: &str)
    ensures
        middle@ == trimmed(text@),
;

/// What `char::is_uppercase` tells of `c`: the Unicode property `Uppercase`.
pub uninterp spec fn uppercase_property(c: char) -> bool;

/// Whether `c` is a capital letter. Among the ASCII characters these are `A` to `Z`.
pub open spec fn is_capital(c: char) -> bool {
    if c <= '\u{7f}' {
        'A' <= c <= 'Z'
    } else {
        uppercase_property(c)
    }
}

/// `char::is_uppercase` of the standard library: tells whether a character has the Unicode
/// property `Uppercase`. Among the ASCII characters these are the letters `A` to `Z`; which
/// others there are is left to the Unicode tables.
pub assume_specification[ char::is_uppercase ](c: char) -> (capital: bool)
    ensures
        c <= '\u{7f}' ==> (capital <==> 'A' <= c <= 'Z'),
        c > '\u{7f}' ==> capital == uppercase_property(c),
;

/// What `String::from_utf8_lossy` makes of `bytes`.
pub uninterp spec fn lossy_text(bytes: Seq<u8>) -> Seq<char>;

/// How `bytes` are shown: as the text that they encode, or, where they are not valid UTF-8,
/// with replacement characters in it.
pub open spec fn shown(bytes: Seq<u8>) -> Seq<char> {
    if vstd::utf8::valid_utf8(bytes) {
        vstd::utf8::decode_utf8(bytes)
    } else {
        lossy_text(bytes)
    }
}

/// `String::from_utf8_lossy` of the standard library: decodes UTF-8, putting U+FFFD in place
/// of what is not valid. Valid bytes decode to exactly what they encode; where in invalid
/// bytes the replacements fall is left to the library function.
#[verifier::external_body]
pub(crate) fn decode_lossy(bytes: &Vec<u8>) -> (text: String)
    ensures
        vstd::utf8::valid_utf8(bytes@) ==> text@ == vstd::utf8::decode_utf8(bytes@),
        !vstd::utf8::valid_utf8(bytes@) ==> text@ == lossy_text(bytes@),
{
    String::from_utf8_lossy(bytes).into_owned()
}

/// `String::from_utf8` of the standard library: decodes bytes that are valid UTF-8, and
/// fails on all others.
#[verifier::external_body]
pub(crate) fn decode_strict(bytes: Vec<u8>) -> (text: Option<String>)
    ensures
        text is Some <==> vstd::utf8::valid_utf8(bytes@),
        text matches Some(t) ==> t@ == vstd::utf8::decode_utf8(bytes@),
{
    String::from_utf8(bytes).ok()
}

/// Whether some character of `text` is a capital letter.
pub open spec fn has_capital(text: Seq<char>) -> bool {
    exists|i: int| 0 <= i < text.len() && is_capital(#[trigger] text[i])
}

/// Whether some character of `text` is a capital letter.
pub fn contains_capital(text: &str) -> (found: bool)
    ensures
        found == has_capital(text@),
{
    let mut found = false;
    for c in chars: text.chars()
        invariant
            chars.seq() == text@,
            found == (exists|i: int| 0 <= i < chars.index() && is_capital(#[trigger] text@[i])),
    {
        if c.is_uppercase() {
            found = true;
        }
    }
    found
}

/// The texts of `parts` one after another, with `separator` between any two.
pub open spec fn joined(parts: Seq<Seq<char>>, separator: Seq<char>) -> Seq<char>
    decreases parts.len(),
{
    if parts.len() == 0 {
        Seq::empty()
    } else if parts.len() == 1 {
        parts[0]
    } else {
        joined(parts.drop_last(), separator) + separator + parts.last()
    }
}

/// White space that is gone from the start of a text cannot be taken away again.
pub proof fn trimming_twice_is_trimming_once(text: Seq<char>)
    ensures
        trimmed_start(trimmed_start(text)) == trimmed_start(text),
        trimmed_start(text).is_suffix_of(text),
    decreases text.len(),
{
    if text.len() > 0 && is_white_space(text.first()) {
        trimming_twice_is_trimming_once(text.drop_first());
    }
}

/// Texts one after another are encoded as their encodings one after another.
pub proof fn encoding_is_piecewise(a: Seq<char>, b: Seq<char>)
    ensures
        vstd::utf8::encode_utf8(a + b) == vstd::utf8::encode_utf8(a) + vstd::utf8::encode_utf8(b),
    decreases a.len(),
{
    if a.len() == 0 {
        assert(a + b == b);
        assert(vstd::utf8::encode_utf8(a) + vstd::utf8::encode_utf8(b) == vstd::utf8::encode_utf8(
            b,
        ));
    } else {
        encoding_is_piecewise(a.drop_first(), b);
        assert((a + b).drop_first() == a.drop_first() + b);
        assert((a + b)[0] == a[0]);
    }
}

/// Among the ASCII characters the blank and the characters from the tabulator to the carriage return
/// are white space, and no others are.
pub proof fn ascii_white_space(c: char)
    requires
        c <= '\u{7f}',
    ensures
        is_white_space(c) <==> c == ' ' || '\t' <= c <= '\r',
{
}

/// White space around a text is gone once it is trimmed, and nothing else is.
pub proof fn trimming_takes_white_space_only(
    before: Seq<char>,
    middle: Seq<char>,
    after: Seq<char>,
)
    requires
        forall|i: int| 0 <= i < before.len() ==> is_white_space(#[trigger] before[i]),
        forall|i: int| 0 <= i < after.len() ==> is_white_space(#[trigger] after[i]),
        middle.len() > 0 ==> !is_white_space(middle.first()) && !is_white_space(middle.last()),
    ensures
        middle.len() > 0 ==> trimmed_start(before + middle + after) == middle + after,
        trimmed(before + middle + after) == middle,
    decreases before.len() + after.len(),
{
    let text = before + middle + after;
    if before.len() > 0 {
        assert(text.first() == before[0]);
        assert(text.drop_first() == before.drop_first() + middle + after);
        assert forall|i: int| 0 <= i < before.drop_first().len() implies is_white_space(
            #[trigger] before.drop_first()[i],
        ) by {
            assert(before.drop_first()[i] == before[i + 1]);
        }
        trimming_takes_white_space_only(before.drop_first(), middle, after);
    } else if middle.len() == 0 {
        assert(text == after);
        lemma_all_white_space(after);
    } else {
        assert(text == middle + after);
        assert(text.first() == middle.first());
        if after.len() > 0 {
            assert forall|i: int| 0 <= i < after.drop_last().len() implies is_white_space(
                #[trigger] after.drop_last()[i],
            ) by {
                assert(after.drop_last()[i] == after[i]);
            }
            trimming_takes_white_space_only(before, middle, after.drop_last());
            assert(before + middle + after.drop_last() == middle + after.drop_last());
            assert((middle + after).last() == after.last());
            assert((middle + after).drop_last() == middle + after.drop_last());
        } else {
            assert(middle + after == middle);
        }
    }
}

proof fn lemma_all_white_space(text: Seq<char>)
    requires
        forall|i: int| 0 <= i < text.len() ==> is_white_space(#[trigger] text[i]),
    ensures
        trimmed_start(text) == Seq::<char>::empty(),
        trimmed(text) == Seq::<char>::empty(),
    decreases text.len(),
{
    if text.len() > 0 {
        assert(is_white_space(text[0]));
        assert forall|i: int| 0 <= i < text.drop_first().len() implies is_white_space(
            #[trigger] text.drop_first()[i],
        ) by {
            assert(text.drop_first()[i] == text[i + 1]);
        }
        lemma_all_white_space(text.drop_first());
    } else {
        assert(text == Seq::<char>::empty());
    }
}

/// A text of white space alone is gone once it is trimmed.
pub proof fn white_space_alone_is_trimmed_away(text: Seq<char>)
    requires
        forall|i: int| 0 <= i < text.len() ==> is_white_space(#[trigger] text[i]),
    ensures
        trimmed_start(text).len() == 0,
        trimmed(text).len() == 0,
{
    lemma_all_white_space(text);
}

/// White space at the start of a text is gone once the start is trimmed, and nothing else is.
pub proof fn trimming_the_start_takes_white_space_only(before: Seq<char>, rest: Seq<char>)
    requires
        forall|i: int| 0 <= i < before.len() ==> is_white_space(#[trigger] before[i]),
        rest.len() > 0 ==> !is_white_space(rest.first()),
    ensures
        trimmed_start(before + rest) == rest,
    decreases before.len(),
{
    if before.len() > 0 {
        assert((before + rest).first() == before[0]);
        assert((before + rest).drop_first() == before.drop_first() + rest);
        assert forall|i: int| 0 <= i < before.drop_first().len() implies is_white_space(
            #[trigger] before.drop_first()[i],
        ) by {
            assert(before.drop_first()[i] == before[i + 1]);
        }
        trimming_the_start_takes_white_space_only(before.drop_first(), rest);
    } else {
        assert(before + rest == rest);
    }
}

/// A text holds a capital letter if and only if one stands somewhere in it: `A` to `Z` or, beyond
/// ASCII, a character with the Unicode property.
pub proof fn any_capital_counts(text: Seq<char>)
    ensures
        has_capital(text) <==> exists|i: int|
            0 <= i < text.len() && ('A' <= #[trigger] text[i] <= 'Z' || text[i] > '\u{7f}'
                && uppercase_property(text[i])),
{
    if has_capital(text) {
        let i = choose|i: int| 0 <= i < text.len() && is_capital(#[trigger] text[i]);
        assert('A' <= text[i] <= 'Z' || text[i] > '\u{7f}' && uppercase_property(text[i]));
    }
    if exists|i: int|
        0 <= i < text.len() && ('A' <= #[trigger] text[i] <= 'Z' || text[i] > '\u{7f}'
            && uppercase_property(text[i])) {
        let i = choose|i: int|
            0 <= i < text.len() && ('A' <= #[trigger] text[i] <= 'Z' || text[i] > '\u{7f}'
                && uppercase_property(text[i]));
        assert(is_capital(text[i]));
    }
}

/// A capital letter is found wherever it stands, and nothing else is taken for one.
pub proof fn capitals_are_found(text: &str, found: bool)
    requires
        call_ensures(contains_capital, (text,), found),
    ensures
        found <==> exists|i: int|
            0 <= i < text@.len() && ('A' <= #[trigger] text@[i] <= 'Z' || text@[i] > '\u{7f}'
                && uppercase_property(text@[i])),
{
    any_capital_counts(text@);
}

/// Texts that are joined stand one after another with the separator between them: nothing for no
/// texts, the text itself for one, and the separator where two joined texts meet.
pub proof fn joining_puts_separators_between(
    a: Seq<Seq<char>>,
    b: Seq<Seq<char>>,
    text: Seq<char>,
    separator: Seq<char>,
)
    ensures
        joined(Seq::empty(), separator).len() == 0,
        joined(seq![text], separator) == text,
        a.len() > 0 && b.len() > 0 ==> joined(a + b, separator) == joined(a, separator) + separator
            + joined(b, separator),
    decreases b.len(),
{
    if a.len() > 0 && b.len() > 0 {
        assert((a + b).drop_last() == a + b.drop_last());
        assert((a + b).last() == b.last());
        if b.len() == 1 {
            assert(a + b.drop_last() == a);
            assert(joined(b, separator) == b.last());
        } else {
            joining_puts_separators_between(a, b.drop_last(), text, separator);
            assert(joined(a + b, separator) == joined(a, separator) + separator + joined(
                b,
                separator,
            ));
        }
    }
}

} // verus!
