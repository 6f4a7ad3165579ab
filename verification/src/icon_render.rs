//! Which icon name a row shows.

use vstd::prelude::*;

verus! {

/// Whether the icon theme resolves a name.
///
/// `looked_up` is what the theme of the display said, `None` without a display: an icon is never
/// swapped for the default because nothing could be asked.
pub fn theme_has_icon(looked_up: Option<bool>) -> (r: bool)
    ensures
        r == (looked_up != Some(false)),
{
    match looked_up {
        Some(has) => has,
        None => true,
    }
}

/// Returns `name` when the icon theme resolves it, otherwise `fallback`.
pub fn theme_icon_or<'a>(name: &'a str, fallback: &'a str, looked_up: Option<bool>) -> (r: &'a str)
    ensures
        r@ == (if looked_up == Some(false) {
            fallback@
        } else {
            name@
        }),
{
    if theme_has_icon(looked_up) {
        name
    } else {
        fallback
    }
}

/// An icon gives way to the default exactly where the theme was asked and does not have it.
pub proof fn law_only_a_missing_icon_gives_way<'a>(
    name: &'a str,
    fallback: &'a str,
    looked_up: Option<bool>,
    there: bool,
    r: &'a str,
)
    requires
        call_ensures(theme_has_icon, (looked_up,), there),
        call_ensures(theme_icon_or, (name, fallback, looked_up), r),
    ensures
        there <==> looked_up == Some(true) || looked_up is None,
        there ==> r@ == name@,
        !there ==> r@ == fallback@,
{
    match looked_up {
        Some(true) => {},
        Some(false) => {},
        None => {},
    }
}

} // verus!
