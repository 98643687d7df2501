//! The age of a page, in words.
use vstd::prelude::*;

use crate::clock::{
    format_time, formatted_time, may_be_now, millis_in_range, seconds_between, seconds_since, time_of_millis,
    utc_now, UtcTime, LONG_DATE, MAX_SECS, MIN_SECS,
};
use crate::text::{append_decimal, decimal, option_view};

verus! {

/// `1 day ago`, `2 days ago`, and so on, for the unit `day`.
pub open spec fn ago(n: nat, unit: Seq<char>) -> Seq<char> {
    decimal(n) + " "@ + unit + (if n == 1 {
        ""@
    } else {
        "s"@
    }) + " ago"@
}

/// The words for an age of so many seconds, in the largest unit of which one is full. There are
/// none for an age below zero, nor for one of five weeks and more.
pub open spec fn age_in_words(secs: int) -> Option<Seq<char>> {
    if secs < 0 {
        None
    } else if secs < 60 {
        Some("just now"@)
    } else if secs < 3600 {
        Some(ago((secs / 60) as nat, "minute"@))
    } else if secs < 86_400 {
        Some(ago((secs / 3600) as nat, "hour"@))
    } else if secs < 604_800 {
        Some(ago((secs / 86_400) as nat, "day"@))
    } else if secs < 3_024_000 {
        Some(ago((secs / 604_800) as nat, "week"@))
    } else {
        None
    }
}

/// The instant so many milliseconds after the beginning of 1970.
pub open spec fn instant_of(ms: int) -> UtcTime {
    UtcTime { secs: (ms / 1000) as i64, nanos: (ms % 1000 * 1_000_000) as u32 }
}

/// What is said at the instant `now` of the age of a page that was published at `published_ms`:
/// its age in words, or else the date; nothing where there is no such date.
pub open spec fn page_age(published_ms: int, now: UtcTime) -> Option<Seq<char>> {
    if millis_in_range(published_ms) {
        let published = instant_of(published_ms);
        match age_in_words(seconds_between(now, published)) {
            Some(words) => Some(words),
            None => Some(
                formatted_time(published.secs as int, published.nanos as int, LONG_DATE@),
            ),
        }
    } else {
        None
    }
}

/// Computes [`ago`].
fn count_ago(n: u64, unit: &str) -> (r: String)
    ensures
        r@ == ago(n as nat, unit@),
{
    let mut out = String::new();
    append_decimal(&mut out, n);
    out.append(" ");
    out.append(unit);
    if n == 1 {
        out.append("");
    } else {
        out.append("s");
    }
    out.append(" ago");
    assert(out@ =~= ago(n as nat, unit@));
    out
}

/// Computes [`age_in_words`].
pub fn words_for_age(secs: i64) -> (r: Option<String>)
    ensures
        option_view(r) == age_in_words(secs as int),
{
    if secs < 0 {
        return None;
    }
    let secs: u64 = secs as u64;
    let mins: u64 = secs / 60;
    let hours: u64 = secs / 3600;
    let days: u64 = secs / 86_400;
    let weeks: u64 = days / 7;
    assert(weeks == secs as int / 604_800);
    if secs < 60 {
        Some("just now".to_owned())
    } else if mins < 60 {
        Some(count_ago(mins, "minute"))
    } else if hours < 24 {
        Some(count_ago(hours, "hour"))
    } else if days < 7 {
        Some(count_ago(days, "day"))
    } else if weeks < 5 {
        Some(count_ago(weeks, "week"))
    } else {
        None
    }
}

/// The age, at the instant `now`, of a page that was published at `published_ms`.
pub fn page_age_at(published_ms: i64, now: UtcTime) -> (r: Option<String>)
    requires
        now.valid(),
    ensures
        option_view(r) == page_age(published_ms as int, now),
{
    match time_of_millis(published_ms) {
        Some(published) => {
            assert(published == instant_of(published_ms as int));
            match words_for_age(seconds_since(now, published)) {
                Some(words) => Some(words),
                None => Some(format_time(published, LONG_DATE)),
            }
        },
        None => None,
    }
}

/// Whether `age` is what is said of the age of a page at some instant.
pub open spec fn some_page_age(published_ms: int, age: Option<Seq<char>>) -> bool {
    exists|now: UtcTime| may_be_now(now) && age == #[trigger] page_age(published_ms, now)
}

/// The age, now, of a page that was published at `published_ms`.
pub fn relative_page_age(published_ms: i64) -> (r: Option<String>)
    ensures
        some_page_age(published_ms as int, option_view(r)),
{
    let now = utc_now();
    let r = page_age_at(published_ms, now);
    assert(option_view(r) == page_age(published_ms as int, now));
    r
}

/// A page that is still to be published by a second or more is given its date, as is one that is
/// five weeks old or older.
pub proof fn law_far_pages_are_given_their_date(published_ms: int, now: UtcTime)
    requires
        millis_in_range(published_ms),
        seconds_between(now, instant_of(published_ms)) < 0 || seconds_between(
            now,
            instant_of(published_ms),
        ) >= 3_024_000,
    ensures
        page_age(published_ms, now) == Some(
            formatted_time(
                instant_of(published_ms).secs as int,
                instant_of(published_ms).nanos as int,
                LONG_DATE@,
            ),
        ),
{
}

/// A page that was published five weeks before 1970 or earlier is given its date, whenever it is
/// asked for.
pub proof fn law_early_pages_are_given_their_date(published_ms: int, age: Option<Seq<char>>)
    requires
        millis_in_range(published_ms),
        published_ms <= -3_024_000_000,
        some_page_age(published_ms, age),
    ensures
        age == Some(
            formatted_time(
                instant_of(published_ms).secs as int,
                instant_of(published_ms).nanos as int,
                LONG_DATE@,
            ),
        ),
{
    let now = choose|now: UtcTime| may_be_now(now) && age == #[trigger] page_age(published_ms, now);
    law_far_pages_are_given_their_date(published_ms, now);
}

/// The instant of a number of milliseconds is that many milliseconds after the beginning of 1970.
pub proof fn law_instant_has_its_millis(ms: int)
    requires
        millis_in_range(ms),
    ensures
        instant_of(ms).valid(),
        instant_of(ms).millis() == ms,
        instant_of(ms).secs * 1_000_000_000 + instant_of(ms).nanos == ms * 1_000_000,
{
}

/// An age of less than a minute is called `just now`; from then on the largest unit that is full is
/// counted: minutes, hours, days, and up to four weeks. One of a unit is not put in the plural.
pub proof fn law_age_counts_the_largest_unit(secs: int, n: nat)
    ensures
        0 <= secs < 60 ==> age_in_words(secs) == Some("just now"@),
        n == 1 && 60 <= secs < 120 ==> age_in_words(secs) == Some(decimal(1) + " minute ago"@),
        2 <= n < 60 && n * 60 <= secs < n * 60 + 60 ==> age_in_words(secs) == Some(
            decimal(n) + " minutes ago"@,
        ),
        n == 1 && 3600 <= secs < 7200 ==> age_in_words(secs) == Some(decimal(1) + " hour ago"@),
        2 <= n < 24 && n * 3600 <= secs < n * 3600 + 3600 ==> age_in_words(secs) == Some(
            decimal(n) + " hours ago"@,
        ),
        n == 1 && 86_400 <= secs < 172_800 ==> age_in_words(secs) == Some(
            decimal(1) + " day ago"@,
        ),
        2 <= n < 7 && n * 86_400 <= secs < n * 86_400 + 86_400 ==> age_in_words(secs) == Some(
            decimal(n) + " days ago"@,
        ),
        n == 1 && 604_800 <= secs < 1_209_600 ==> age_in_words(secs) == Some(
            decimal(1) + " week ago"@,
        ),
        2 <= n < 5 && n * 604_800 <= secs < n * 604_800 + 604_800 ==> age_in_words(secs) == Some(
            decimal(n) + " weeks ago"@,
        ),
        secs < 0 || secs >= 3_024_000 ==> age_in_words(secs) is None,
{
    lemma_ago(n);
    if 60 <= secs < 3600 {
        assert(n * 60 <= secs < n * 60 + 60 ==> secs / 60 == n);
    } else if 3600 <= secs < 86_400 {
        assert(n * 3600 <= secs < n * 3600 + 3600 ==> secs / 3600 == n);
    } else if 86_400 <= secs < 604_800 {
        assert(n * 86_400 <= secs < n * 86_400 + 86_400 ==> secs / 86_400 == n);
    } else if 604_800 <= secs < 3_024_000 {
        assert(n * 604_800 <= secs < n * 604_800 + 604_800 ==> secs / 604_800 == n);
    }
}

/// The words for a number of units, written out.
proof fn lemma_ago(n: nat)
    ensures
        n == 1 ==> ago(n, "minute"@) == decimal(n) + " minute ago"@,
        n != 1 ==> ago(n, "minute"@) == decimal(n) + " minutes ago"@,
        n == 1 ==> ago(n, "hour"@) == decimal(n) + " hour ago"@,
        n != 1 ==> ago(n, "hour"@) == decimal(n) + " hours ago"@,
        n == 1 ==> ago(n, "day"@) == decimal(n) + " day ago"@,
        n != 1 ==> ago(n, "day"@) == decimal(n) + " days ago"@,
        n == 1 ==> ago(n, "week"@) == decimal(n) + " week ago"@,
        n != 1 ==> ago(n, "week"@) == decimal(n) + " weeks ago"@,
{
    reveal_strlit(" ");
    reveal_strlit("");
    reveal_strlit("s");
    reveal_strlit(" ago");
    reveal_strlit("minute");
    reveal_strlit("hour");
    reveal_strlit("day");
    reveal_strlit("week");
    reveal_strlit(" minute ago");
    reveal_strlit(" minutes ago");
    reveal_strlit(" hour ago");
    reveal_strlit(" hours ago");
    reveal_strlit(" day ago");
    reveal_strlit(" days ago");
    reveal_strlit(" week ago");
    reveal_strlit(" weeks ago");
    assert(" minute ago"@ =~= " "@ + "minute"@ + ""@ + " ago"@);
    assert(" minutes ago"@ =~= " "@ + "minute"@ + "s"@ + " ago"@);
    assert(" hour ago"@ =~= " "@ + "hour"@ + ""@ + " ago"@);
    assert(" hours ago"@ =~= " "@ + "hour"@ + "s"@ + " ago"@);
    assert(" day ago"@ =~= " "@ + "day"@ + ""@ + " ago"@);
    assert(" days ago"@ =~= " "@ + "day"@ + "s"@ + " ago"@);
    assert(" week ago"@ =~= " "@ + "week"@ + ""@ + " ago"@);
    assert(" weeks ago"@ =~= " "@ + "week"@ + "s"@ + " ago"@);
    lemma_ago_joined(n, "minute"@);
    lemma_ago_joined(n, "hour"@);
    lemma_ago_joined(n, "day"@);
    lemma_ago_joined(n, "week"@);
}

/// The words behind the number, taken together.
proof fn lemma_ago_joined(n: nat, unit: Seq<char>)
    ensures
        n == 1 ==> ago(n, unit) == decimal(n) + (" "@ + unit + ""@ + " ago"@),
        n != 1 ==> ago(n, unit) == decimal(n) + (" "@ + unit + "s"@ + " ago"@),
{
    if n == 1 {
        assert(ago(n, unit) =~= decimal(n) + (" "@ + unit + ""@ + " ago"@));
    } else {
        assert(ago(n, unit) =~= decimal(n) + (" "@ + unit + "s"@ + " ago"@));
    }
}

/// Something is said of the age of a page just where the date of its publication lies in the
/// calendar: the words for the seconds since then, where there are any.
pub proof fn law_age_is_said_of_known_dates(published_ms: int, now: UtcTime)
    ensures
        page_age(published_ms, now) is Some <==> MIN_SECS * 1000 <= published_ms < (MAX_SECS + 1)
            * 1000,
        millis_in_range(published_ms) && 0 <= seconds_between(now, instant_of(published_ms))
            < 3_024_000 ==> page_age(published_ms, now) == age_in_words(
            seconds_between(now, instant_of(published_ms)),
        ),
{
}

/// What is said of the age of a page is said at an instant that the clock may show, of the date of
/// its publication and no other.
pub proof fn law_age_is_said_at_some_instant(published_ms: int, age: Option<Seq<char>>)
    ensures
        some_page_age(published_ms, age) <==> exists|now: UtcTime|
            now.valid() && now.secs >= 0 && age == #[trigger] page_age(published_ms, now),
{
}

} // verus!
