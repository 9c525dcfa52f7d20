//! A selection of well-known holidays, and finding one by its name.

pub mod global;
pub mod united_states;

use crate::eq::same_text;
use crate::Holiday;
use global::{christmas, christmas_eve};
use std::str::FromStr;
use united_states::{
    april_fools_day, columbus_day, dst_end, dst_start, fathers_day, flag_day, groundhog_day,
    halloween, independence_day, kentucky_derby, labor_day, memorial_day, mlkj_day, mothers_day,
    presidents_day, superbowl_sunday, thanksgiving, valentines_day, veterans_day,
};
use vstd::prelude::*;

verus! {

/// The answer to a name that no holiday of the selection goes by.
#[derive(Debug, Clone, Copy, PartialEq, Eq, Structural)]
pub struct UnknownHoliday;

/// What `str::to_lowercase` makes of a text: its lowercase equivalent as Unicode defines it.
pub uninterp spec fn lowercase(text: Seq<char>) -> Seq<char>;

/// What `str::trim` leaves of a text: the text without the whitespace, as
/// Unicode defines it, at its two ends.
pub uninterp spec fn trimmed(text: Seq<char>) -> Seq<char>;

/// Whether `text` begins with `prefix`.
pub open spec fn starts_with(text: Seq<char>, prefix: Seq<char>) -> bool {
    prefix.len() <= text.len() && text.subrange(0, prefix.len() as int) == prefix
}

/// Whether `text` ends with `suffix`.
pub open spec fn ends_with(text: Seq<char>, suffix: Seq<char>) -> bool {
    suffix.len() <= text.len() && text.subrange(text.len() - suffix.len(), text.len() as int)
        == suffix
}

/// The text with each match of `from` replaced by `to`: the matches are
/// taken from the left and do not overlap.
pub open spec fn replaced(text: Seq<char>, from: Seq<char>, to: Seq<char>) -> Seq<char>
    decreases text.len(),
{
    if from.len() == 0 || text.len() < from.len() {
        text
    } else if starts_with(text, from) {
        to + replaced(text.skip(from.len() as int), from, to)
    } else {
        seq![text[0]] + replaced(text.skip(1), from, to)
    }
}

/// The text without `prefix` at its start, taken away as often as it stands there.
pub open spec fn without_leading(text: Seq<char>, prefix: Seq<char>) -> Seq<char>
    decreases text.len(),
{
    if prefix.len() > 0 && starts_with(text, prefix) {
        without_leading(text.skip(prefix.len() as int), prefix)
    } else {
        text
    }
}

/// The text without `suffix` at its end, taken away as often as it stands there.
pub open spec fn without_trailing(text: Seq<char>, suffix: Seq<char>) -> Seq<char>
    decreases text.len(),
{
    if suffix.len() > 0 && ends_with(text, suffix) {
        without_trailing(text.take(text.len() - suffix.len()), suffix)
    } else {
        text
    }
}

/// The form of a name under which the selection is searched: in lowercase,
/// without apostrophes, without a leading "the" and a trailing " day", and
/// without whitespace around it.
pub open spec fn normalized(name: Seq<char>) -> Seq<char> {
    trimmed(
        without_trailing(
            without_leading(replaced(lowercase(name), "'"@, ""@), "the"@),
            " day"@,
        ),
    )
}

/// The holiday that goes by the normalized name `key`.
pub open spec fn holiday_named(key: Seq<char>) -> Option<Holiday<'static>> {
    if key == "martin luther king jr."@ {
        Some(mlkj_day())
    } else if key == "groundhog"@ {
        Some(groundhog_day())
    } else if key == "superbowl sunday"@ {
        Some(superbowl_sunday())
    } else if key == "superbowl"@ {
        Some(superbowl_sunday())
    } else if key == "presidents"@ {
        Some(presidents_day())
    } else if key == "valentines"@ {
        Some(valentines_day())
    } else if key == "daylight saving time starts"@ {
        Some(dst_start())
    } else if key == "april fools"@ {
        Some(april_fools_day())
    } else if key == "kentucky derby"@ {
        Some(kentucky_derby())
    } else if key == "memorial"@ {
        Some(memorial_day())
    } else if key == "mothers"@ {
        Some(mothers_day())
    } else if key == "flag"@ {
        Some(flag_day())
    } else if key == "independence"@ {
        Some(independence_day())
    } else if key == "july 4th"@ {
        Some(independence_day())
    } else if key == "july fourth"@ {
        Some(independence_day())
    } else if key == "fourth of july"@ {
        Some(independence_day())
    } else if key == "fathers"@ {
        Some(fathers_day())
    } else if key == "labor"@ {
        Some(labor_day())
    } else if key == "halloween"@ {
        Some(halloween())
    } else if key == "columbus"@ {
        Some(columbus_day())
    } else if key == "veterans"@ {
        Some(veterans_day())
    } else if key == "daylight saving time ends"@ {
        Some(dst_end())
    } else if key == "thanksgiving"@ {
        Some(thanksgiving())
    } else if key == "christmas eve"@ {
        Some(christmas_eve())
    } else if key == "christmas"@ {
        Some(christmas())
    } else {
        None
    }
}

/// The holiday that goes by the normalized name `key`, if there is one.
pub fn lookup(key: &str) -> (r: Option<Holiday<'static>>)
    ensures
        r == holiday_named(key@),
{
    if same_text(key, "martin luther king jr.") {
        Some(mlkj_day())
    } else if same_text(key, "groundhog") {
        Some(groundhog_day())
    } else if same_text(key, "superbowl sunday") {
        Some(superbowl_sunday())
    } else if same_text(key, "superbowl") {
        Some(superbowl_sunday())
    } else if same_text(key, "presidents") {
        Some(presidents_day())
    } else if same_text(key, "valentines") {
        Some(valentines_day())
    } else if same_text(key, "daylight saving time starts") {
        Some(dst_start())
    } else if same_text(key, "april fools") {
        Some(april_fools_day())
    } else if same_text(key, "kentucky derby") {
        Some(kentucky_derby())
    } else if same_text(key, "memorial") {
        Some(memorial_day())
    } else if same_text(key, "mothers") {
        Some(mothers_day())
    } else if same_text(key, "flag") {
        Some(flag_day())
    } else if same_text(key, "independence") {
        Some(independence_day())
    } else if same_text(key, "july 4th") {
        Some(independence_day())
    } else if same_text(key, "july fourth") {
        Some(independence_day())
    } else if same_text(key, "fourth of july") {
        Some(independence_day())
    } else if same_text(key, "fathers") {
        Some(fathers_day())
    } else if same_text(key, "labor") {
        Some(labor_day())
    } else if same_text(key, "halloween") {
        Some(halloween())
    } else if same_text(key, "columbus") {
        Some(columbus_day())
    } else if same_text(key, "veterans") {
        Some(veterans_day())
    } else if same_text(key, "daylight saving time ends") {
        Some(dst_end())
    } else if same_text(key, "thanksgiving") {
        Some(thanksgiving())
    } else if same_text(key, "christmas eve") {
        Some(christmas_eve())
    } else if same_text(key, "christmas") {
        Some(christmas())
    } else {
        None
    }
}

impl Holiday<'static> {
    /// The holiday that goes by `name`, whatever its case, with or without
    /// apostrophes, a leading "the" and a trailing " day".
    pub fn from_name(name: &str) -> (r: Result<Holiday<'static>, UnknownHoliday>)
        ensures
            r == match holiday_named(normalized(name@)) {
                Some(holiday) => Ok::<Holiday<'static>, UnknownHoliday>(holiday),
                None => Err(UnknownHoliday),
            },
    {
        proof {
            reveal_strlit("'");
            reveal_strlit("the");
            reveal_strlit(" day");
        }
        let lower = to_lowercase(name);
        let plain = replace(lower.as_str(), "'", "");
        let key = trim(trim_end_matches(trim_start_matches(plain.as_str(), "the"), " day"));
        match lookup(key) {
            Some(holiday) => Ok(holiday),
            None => Err(UnknownHoliday),
        }
    }
}

impl FromStr for Holiday<'static> {
    type Err = UnknownHoliday;

    /// The holiday that goes by the name `s`, as [`Holiday::from_name`] finds it.
    fn from_str(s: &str) -> (r: Result<Holiday<'static>, UnknownHoliday>)
        ensures
            r == match holiday_named(normalized(s@)) {
                Some(holiday) => Ok::<Holiday<'static>, UnknownHoliday>(holiday),
                None => Err(UnknownHoliday),
            },
    {
        Holiday::from_name(s)
    }
}

/// `str::to_lowercase`.
///
/// Trusted: the result depends on the characters of the text alone.
#[verifier::external_body]
fn to_lowercase(text: &str) -> (r: String)
    ensures
        r@ == lowercase(text@),
{
    text.to_lowercase()
}

/// `str::replace` with a string as the pattern.
///
/// Trusted: every match of the pattern is replaced, where the matches are
/// taken from the left and do not overlap.
#[verifier::external_body]
fn replace(text: &str, from: &str, to: &str) -> (r: String)
    requires
        from@.len() > 0,
    ensures
        r@ == replaced(text@, from@, to@),
{
    text.replace(from, to)
}

/// `str::trim_start_matches` with a string as the pattern.
///
/// Trusted: the pattern is taken from the start of the text as often as it stands there.
#[verifier::external_body]
fn trim_start_matches<'a>(text: &'a str, prefix: &str) -> (r: &'a str)
    requires
        prefix@.len() > 0,
    ensures
        r@ == without_leading(text@, prefix@),
{
    text.trim_start_matches(prefix)
}

/// `str::trim_end_matches` with a string as the pattern.
///
/// Trusted: the pattern is taken from the end of the text as often as it stands there.
#[verifier::external_body]
fn trim_end_matches<'a>(text: &'a str, suffix: &str) -> (r: &'a str)
    requires
        suffix@.len() > 0,
    ensures
        r@ == without_trailing(text@, suffix@),
{
    text.trim_end_matches(suffix)
}

/// `str::trim`.
///
/// Trusted: the result depends on the characters of the text alone.
#[verifier::external_body]
fn trim<'a>(text: &'a str) -> (r: &'a str)
    ensures
        r@ == trimmed(text@),
{
    text.trim()
}

} // verus!
