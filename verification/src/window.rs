//! Which window a chosen directory is opened in, and how the user is told.

use crate::path::DirectoryPath;
use vstd::prelude::*;

verus! {

/// The directory that the user has chosen to open, and where.
pub struct OpenDirectory {
    pub path: DirectoryPath,
    pub replace_current_window: bool,
}

/// Whether a choice replaces what the current window shows. A picker that is set to create new
/// windows does so for the secondary way of confirming, any other for the primary one.
pub open spec fn replaces_window(create_new_window: bool, secondary: bool) -> bool {
    create_new_window == secondary
}

/// Whether a choice replaces what the current window shows.
pub fn replaces_current_window(create_new_window: bool, secondary: bool) -> (replaces: bool)
    ensures
        replaces == replaces_window(create_new_window, secondary),
{
    if create_new_window {
        secondary
    } else {
        !secondary
    }
}

/// The key that reuses the current window: `confirm` confirms in the primary way,
/// `secondary_confirm` in the secondary one.
pub open spec fn reuse_key(
    create_new_window: bool,
    confirm: Seq<char>,
    secondary_confirm: Seq<char>,
) -> Seq<char> {
    if create_new_window {
        secondary_confirm
    } else {
        confirm
    }
}

/// The key that opens a new window.
pub open spec fn create_key(
    create_new_window: bool,
    confirm: Seq<char>,
    secondary_confirm: Seq<char>,
) -> Seq<char> {
    if create_new_window {
        confirm
    } else {
        secondary_confirm
    }
}

/// The sentence that names the key for each window.
pub open spec fn key_hint(
    create_new_window: bool,
    confirm: Seq<char>,
    secondary_confirm: Seq<char>,
) -> Seq<char> {
    reuse_key(create_new_window, confirm, secondary_confirm) + " reuses this window, "@
        + create_key(create_new_window, confirm, secondary_confirm) + " opens a new one"@
}

/// `prefix` followed by the sentence that names the key for each window.
pub fn key_hint_text(
    prefix: &str,
    create_new_window: bool,
    confirm: &str,
    secondary_confirm: &str,
) -> (text: String)
    ensures
        text@ == prefix@ + key_hint(create_new_window, confirm@, secondary_confirm@),
{
    let (create_window, reuse_window) = if create_new_window {
        (confirm, secondary_confirm)
    } else {
        (secondary_confirm, confirm)
    };
    let mut text = prefix.to_owned();
    text.append(reuse_window);
    text.append(" reuses this window, ");
    text.append(create_window);
    text.append(" opens a new one");
    assert(text@ == prefix@ + key_hint(create_new_window, confirm@, secondary_confirm@));
    text
}

/// Of the two ways to confirm exactly one replaces what the current window shows.
pub proof fn one_way_replaces(create_new_window: bool, secondary: bool)
    ensures
        replaces_window(create_new_window, secondary) != replaces_window(
            create_new_window,
            !secondary,
        ),
{
}

/// A picker that is not set to create new windows opens a directory in the current window for the
/// primary way of confirming, and in a new one for the secondary way.
pub proof fn primary_way_reuses_the_window()
    ensures
        replaces_window(false, false),
        !replaces_window(false, true),
{
}

/// The hint tells the truth: the key that it names for reusing the window is that of the way to
/// confirm which replaces what the window shows, the other key that of the other way.
pub proof fn hint_is_true(
    create_new_window: bool,
    secondary: bool,
    confirm: Seq<char>,
    secondary_confirm: Seq<char>,
)
    ensures
        ({
            let pressed = if secondary {
                secondary_confirm
            } else {
                confirm
            };
            if replaces_window(create_new_window, secondary) {
                reuse_key(create_new_window, confirm, secondary_confirm) == pressed
            } else {
                create_key(create_new_window, confirm, secondary_confirm) == pressed
            }
        }),
{
}

/// The primary way of confirming replaces what the current window shows unless the picker is set to
/// create new windows, the secondary way only if it is.
pub proof fn setting_and_way_decide_on_the_window(
    create_new_window: bool,
    primary: bool,
    secondary: bool,
)
    requires
        call_ensures(replaces_current_window, (create_new_window, false), primary),
        call_ensures(replaces_current_window, (create_new_window, true), secondary),
    ensures
        primary == !create_new_window,
        secondary == create_new_window,
        replaces_window(create_new_window, false) == !create_new_window,
        replaces_window(create_new_window, true) == create_new_window,
{
}

/// The hint starts with the prefix, names the key that replaces what the window shows, and after it
/// the one that does not.
pub proof fn hint_names_both_keys(
    prefix: &str,
    create_new_window: bool,
    confirm: &str,
    secondary_confirm: &str,
    text: String,
)
    requires
        call_ensures(key_hint_text, (prefix, create_new_window, confirm, secondary_confirm), text),
    ensures
        create_new_window ==> text@ == prefix@ + secondary_confirm@ + " reuses this window, "@
            + confirm@ + " opens a new one"@,
        !create_new_window ==> text@ == prefix@ + confirm@ + " reuses this window, "@
            + secondary_confirm@ + " opens a new one"@,
{
    if create_new_window {
        assert(text@ == prefix@ + secondary_confirm@ + " reuses this window, "@ + confirm@
            + " opens a new one"@);
    } else {
        assert(text@ == prefix@ + confirm@ + " reuses this window, "@ + secondary_confirm@
            + " opens a new one"@);
    }
}

} // verus!
