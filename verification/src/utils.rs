//! Texts that the interface shows: play times, season names, page trails
//! and the time since a series last aired.

use vstd::prelude::*;

use crate::text::joined;
use vstd::arithmetic::div_mod::lemma_div_denominator;
use vstd::arithmetic::div_mod::lemma_div_is_ordered;
use crate::text::digits_value;
use crate::text::int_text;
use crate::text::lemma_digits_read_back;
use crate::text::nat_digits;
use crate::text::pad2_text;
use crate::text::push_digits;
use crate::text::push_int;
use crate::text::push_pad2;

verus! {

/// The longest play time, in whole seconds, that a time span of the
/// `chrono` crate holds (`i64::MAX` milliseconds).
pub const MAX_DURATION_SECONDS: u64 = 9_223_372_036_854_775;

/// A play time as the player shows it: "H:MM:SS" from one hour on, else
/// "M:SS".
pub open spec fn video_duration_text(seconds: nat) -> Seq<char> {
    let hours = seconds / 3600;
    if hours > 0 {
        nat_digits(hours) + ":"@ + pad2_text((seconds / 60) % 60) + ":"@ + pad2_text(seconds % 60)
    } else {
        nat_digits(seconds / 60) + ":"@ + pad2_text(seconds % 60)
    }
}

/// The text of a play time of `seconds` whole seconds.
pub fn seconds_to_video_duration(seconds: u64) -> (r: String)
    requires
        seconds <= MAX_DURATION_SECONDS,
    ensures
        r@ == video_duration_text(seconds as nat),
{
    let hours = seconds / 3600;
    let mut r = String::new();
    if hours > 0 {
        push_digits(&mut r, hours);
        r.append(":");
        push_pad2(&mut r, (seconds / 60) % 60);
        r.append(":");
        push_pad2(&mut r, seconds % 60);
    } else {
        push_digits(&mut r, seconds / 60);
        r.append(":");
        push_pad2(&mut r, seconds % 60);
    }
    assert(r@ =~= video_duration_text(seconds as nat));
    r
}

proof fn lemma_pad2_reads_back(n: nat)
    requires
        n < 100,
    ensures
        pad2_text(n).len() == 2,
        digits_value(pad2_text(n)) == n,
        forall|i: int| 0 <= i < 2 ==> '0' <= #[trigger] pad2_text(n)[i] <= '9',
{
    lemma_digits_read_back(n);
    if n < 10 {
        let t = pad2_text(n);
        assert(t.drop_last() =~= seq!['0']);
        assert(digits_value(seq!['0']) == digits_value(seq!['0'].drop_last()) * 10 + (('0' as u32) - 48) as nat);
        assert(seq!['0'].drop_last() =~= Seq::<char>::empty());
        assert(t.last() == nat_digits(n)[0]);
        assert(nat_digits(n).drop_last() =~= Seq::<char>::empty());
    } else {
        assert(nat_digits(n) =~= nat_digits(n / 10) + seq![crate::text::digit_char(n % 10)]);
    }
}

/// Law: a play time reads back as its number of seconds: the last two
/// digits are the seconds of the minute after a colon; below an hour the
/// digits before them are the whole minutes; from an hour on they are the
/// minutes of the hour after a colon, and the digits before those the whole
/// hours.
pub proof fn lemma_video_duration_reads_back(seconds: nat)
    ensures
        ({
            let t = video_duration_text(seconds);
            &&& t.len() >= 4
            &&& t[t.len() - 3] == ':'
            &&& digits_value(t.subrange(t.len() - 2, t.len() as int)) == seconds % 60
            &&& seconds < 3600 ==> digits_value(t.subrange(0, t.len() - 3)) == seconds / 60
            &&& seconds >= 3600 ==> {
                &&& t.len() >= 7
                &&& t[t.len() - 6] == ':'
                &&& digits_value(t.subrange(t.len() - 5, t.len() - 3)) == (seconds / 60) % 60
                &&& digits_value(t.subrange(0, t.len() - 6)) == seconds / 3600
                &&& digits_value(t.subrange(0, t.len() - 6)) * 3600 + digits_value(
                    t.subrange(t.len() - 5, t.len() - 3),
                ) * 60 + digits_value(t.subrange(t.len() - 2, t.len() as int)) == seconds
            }
        }),
{
    reveal_strlit(":");
    let t = video_duration_text(seconds);
    let ss = pad2_text(seconds % 60);
    lemma_pad2_reads_back(seconds % 60);
    if seconds / 3600 > 0 {
        let h = nat_digits(seconds / 3600);
        let mm = pad2_text((seconds / 60) % 60);
        lemma_digits_read_back(seconds / 3600);
        lemma_pad2_reads_back((seconds / 60) % 60);
        assert(t =~= h + seq![':'] + mm + seq![':'] + ss);
        assert(t.subrange(t.len() - 2, t.len() as int) =~= ss);
        assert(t.subrange(t.len() - 5, t.len() - 3) =~= mm);
        assert(t.subrange(0, t.len() - 6) =~= h);
        assert(seconds == (seconds / 3600) * 3600 + ((seconds / 60) % 60) * 60 + seconds % 60) by (nonlinear_arith);
    } else {
        let m = nat_digits(seconds / 60);
        lemma_digits_read_back(seconds / 60);
        assert(t =~= m + seq![':'] + ss);
        assert(t.subrange(t.len() - 2, t.len() as int) =~= ss);
        assert(t.subrange(0, t.len() - 3) =~= m);
    }
}

/// The play position and length, as the player bar shows them.
pub open spec fn playback_time_text(position: nat, duration: nat) -> Seq<char> {
    video_duration_text(position) + " / "@ + video_duration_text(duration)
}

/// The text "position / length" of the player bar.
pub fn playback_time_label(position: u64, duration: u64) -> (r: String)
    requires
        position <= MAX_DURATION_SECONDS,
        duration <= MAX_DURATION_SECONDS,
    ensures
        r@ == playback_time_text(position as nat, duration as nat),
{
    let mut r = seconds_to_video_duration(position);
    r.append(" / ");
    let d = seconds_to_video_duration(duration);
    r.append(d.as_str());
    r
}

/// The name of a season: season 0 holds the specials.
pub open spec fn season_text(season: i64) -> Seq<char> {
    if season == 0 {
        "Specials"@
    } else {
        "Season "@ + int_text(season as int)
    }
}

/// The name of season `season`.
pub fn season_or_specials_label(season: i64) -> (r: String)
    ensures
        r@ == season_text(season),
{
    if season == 0 {
        "Specials".to_owned()
    } else {
        let mut r = "Season ".to_owned();
        push_int(&mut r, season);
        r
    }
}

/// Law: season 0 is named "Specials"; any other season is named "Season "
/// followed by its number, which reads back from the name (after a minus
/// sign for a negative number).
pub proof fn lemma_season_name_reads_back(season: i64)
    ensures
        season == 0 ==> season_text(season) == "Specials"@,
        season != 0 ==> {
            let t = season_text(season);
            &&& t.len() > 7
            &&& t.subrange(0, 7) == "Season "@
            &&& season > 0 ==> digits_value(t.subrange(7, t.len() as int)) == season
            &&& season < 0 ==> t[7] == '-' && digits_value(t.subrange(8, t.len() as int)) == -season
        },
{
    reveal_strlit("Season ");
    if season > 0 {
        lemma_digits_read_back(season as nat);
        let t = season_text(season);
        assert(t.subrange(7, t.len() as int) =~= nat_digits(season as nat));
        assert(t.subrange(0, 7) =~= "Season "@);
    } else if season < 0 {
        lemma_digits_read_back((-season) as nat);
        let t = season_text(season);
        assert(t.subrange(8, t.len() as int) =~= nat_digits((-season) as nat));
        assert(t.subrange(0, 7) =~= "Season "@);
    }
}

/// The trail entry of a series page: "{title} ({season})".
pub open spec fn show_crumb_text(title: Seq<char>, season: i64) -> Seq<char> {
    title + " ("@ + season_text(season) + ")"@
}

/// The trail entry of the series `title` at season `season`.
pub fn show_crumb(title: &str, season: i64) -> (r: String)
    ensures
        r@ == show_crumb_text(title@, season),
{
    let mut r = joined(title, " (");
    let name = season_or_specials_label(season);
    r.append(name.as_str());
    r.append(")");
    r
}

/// The trail entry of an episode page: "{title} (Episode {number})".
pub open spec fn episode_crumb_text(title: Seq<char>, number: i64) -> Seq<char> {
    title + " ("@ + episode_text(number) + ")"@
}

/// The caption of an episode: "Episode {number}".
pub open spec fn episode_text(number: i64) -> Seq<char> {
    "Episode "@ + int_text(number as int)
}

/// The caption of episode number `number`.
pub fn episode_label(number: i64) -> (r: String)
    ensures
        r@ == episode_text(number),
{
    let mut r = "Episode ".to_owned();
    push_int(&mut r, number);
    r
}

/// The trail entry of the episode `title` with number `number`.
pub fn episode_crumb(title: &str, number: i64) -> (r: String)
    ensures
        r@ == episode_crumb_text(title@, number),
{
    let mut r = joined(title, " (");
    let caption = episode_label(number);
    r.append(caption.as_str());
    r.append(")");
    r
}

/// Integer division rounding toward zero, as Rust's `/` on integers.
pub open spec fn trunc_div(a: int, d: int) -> int {
    if a >= 0 {
        a / d
    } else {
        -((-a) / d)
    }
}

/// The time from an instant `aired` to an instant `now`, in nanoseconds, as
/// `chrono`'s `signed_duration_since` counts it. An instant is whole seconds
/// since the Unix epoch in UTC and nanoseconds past them, a billion or more
/// only within a leap second. The span is the whole days between the two
/// dates, then the difference of the times of day, in which a leap second
/// that one of the two times has passed counts as one more second.
pub open spec fn elapsed_nanos(aired_secs: int, aired_nanos: int, now_secs: int, now_nanos: int) -> int {
    let days = now_secs / 86400 - aired_secs / 86400;
    let now_day_secs = now_secs % 86400;
    let aired_day_secs = aired_secs % 86400;
    let leap: int = if now_day_secs > aired_day_secs && aired_nanos >= 1_000_000_000 {
        1
    } else if now_day_secs < aired_day_secs && now_nanos >= 1_000_000_000 {
        -1
    } else {
        0
    };
    (days * 86400 + now_day_secs - aired_day_secs + leap) * 1_000_000_000 + (now_nanos - aired_nanos)
}

/// Law: between two instants outside leap seconds the elapsed time is the
/// difference of their seconds since the epoch, in nanoseconds, plus that of
/// their nanoseconds.
pub proof fn lemma_elapsed_without_leap_seconds(aired_secs: int, aired_nanos: int, now_secs: int, now_nanos: int)
    requires
        0 <= aired_nanos < 1_000_000_000,
        0 <= now_nanos < 1_000_000_000,
    ensures
        elapsed_nanos(aired_secs, aired_nanos, now_secs, now_nanos) == (now_secs - aired_secs)
            * 1_000_000_000 + (now_nanos - aired_nanos),
{
    vstd::arithmetic::div_mod::lemma_fundamental_div_mod(now_secs, 86400);
    vstd::arithmetic::div_mod::lemma_fundamental_div_mod(aired_secs, 86400);
}

/// How long ago a series aired, from the time between its airing and now
/// in nanoseconds: whole days when at least one, whole hours when more
/// than sixty minutes, else whole minutes. Time spans are cut to whole
/// units toward zero, as `chrono` counts them.
pub open spec fn aired_ago_text(elapsed: int) -> Seq<char> {
    let seconds = trunc_div(elapsed, 1_000_000_000);
    let days = trunc_div(seconds, 86400);
    let hours = trunc_div(seconds, 3600);
    let minutes = trunc_div(seconds, 60);
    if days > 0 {
        int_text(days) + " days ago"@
    } else if minutes > 60 {
        int_text(hours) + " hours ago"@
    } else {
        int_text(minutes) + " minutes ago"@
    }
}

/// Law: a series that aired at least a day ago is counted in whole days,
/// one that aired more than sixty minutes but less than a day ago in whole
/// hours, and one that aired less recently or in the future in whole minutes,
/// each the elapsed time divided by the unit and cut toward zero.
pub proof fn lemma_aired_ago_units(elapsed: int)
    ensures
        elapsed >= 86400 * 1_000_000_000 ==> aired_ago_text(elapsed) == int_text(
            elapsed / (86400 * 1_000_000_000) as int,
        ) + " days ago"@,
        61 * 60 * 1_000_000_000 <= elapsed < 86400 * 1_000_000_000 ==> aired_ago_text(elapsed) == int_text(
            elapsed / (3600 * 1_000_000_000) as int,
        ) + " hours ago"@,
        0 <= elapsed < 61 * 60 * 1_000_000_000 ==> aired_ago_text(elapsed) == int_text(
            elapsed / (60 * 1_000_000_000) as int,
        ) + " minutes ago"@,
        elapsed < 0 ==> aired_ago_text(elapsed) == int_text(-((-elapsed) / (60 * 1_000_000_000) as int))
            + " minutes ago"@,
{
    let g: int = 1_000_000_000;
    if elapsed >= 0 {
        let s = elapsed / g;
        assert(s == trunc_div(elapsed, g));
        lemma_div_denominator(elapsed, g, 86400);
        lemma_div_denominator(elapsed, g, 3600);
        lemma_div_denominator(elapsed, g, 60);
        assert((86400 * g) / g == 86400);
        assert((61 * 60 * g) / g == 3660);
        assert((86400 * g - 1) / g == 86399);
        assert((61 * 60 * g - 1) / g == 3659);
        if elapsed >= 86400 * g {
            lemma_div_is_ordered(86400 * g, elapsed, g);
            lemma_div_is_ordered(86400, s, 86400);
        } else {
            lemma_div_is_ordered(elapsed, 86400 * g - 1, g);
            lemma_div_is_ordered(s, 86399, 86400);
            if elapsed >= 61 * 60 * g {
                lemma_div_is_ordered(61 * 60 * g, elapsed, g);
                lemma_div_is_ordered(3660, s, 60);
            } else {
                lemma_div_is_ordered(elapsed, 61 * 60 * g - 1, g);
                lemma_div_is_ordered(s, 3659, 60);
            }
        }
    } else {
        let s = -((-elapsed) / g);
        lemma_div_denominator(-elapsed, g, 60);
        assert(s <= 0);
        assert(trunc_div(s, 86400) <= 0);
        assert(trunc_div(s, 60) == -(((-elapsed) / g) / 60));
    }
}

fn trunc_div_i128(a: i128, d: i128) -> (r: i128)
    requires
        d > 0,
        -0x1_0000_0000_0000_0000_0000_0000 < a < 0x1_0000_0000_0000_0000_0000_0000,
    ensures
        r == trunc_div(a as int, d as int),
{
    if a >= 0 {
        a / d
    } else {
        -((-a) / d)
    }
}

/// Euclidean quotient and remainder of `a` by 86400: the day and the second
/// of the day of an instant.
fn day_and_second(a: i64) -> (r: (i128, i128))
    ensures
        r.0 == (a as int) / 86400,
        r.1 == (a as int) % 86400,
{
    let x = a as i128;
    let (q, m) = if x >= 0 {
        (x / 86400, x % 86400)
    } else {
        let q = -((-x - 1) / 86400) - 1;
        (q, x - q * 86400)
    };
    proof {
        if x >= 0 {
            vstd::arithmetic::div_mod::lemma_fundamental_div_mod(x as int, 86400);
        } else {
            let y = (-x - 1) as int;
            vstd::arithmetic::div_mod::lemma_fundamental_div_mod(y, 86400);
            vstd::arithmetic::div_mod::lemma_mod_pos_bound(y, 86400);
        }
        vstd::arithmetic::div_mod::lemma_fundamental_div_mod_converse(x as int, 86400, q as int, m as int);
    }
    (q, m)
}

/// The text of how long ago a series aired, from the instants of its airing
/// and of now, each as whole seconds since the Unix epoch and nanoseconds
/// past them.
pub fn aired_ago_label(aired_secs: i64, aired_nanos: u32, now_secs: i64, now_nanos: u32) -> (r: String)
    ensures
        r@ == aired_ago_text(elapsed_nanos(aired_secs as int, aired_nanos as int, now_secs as int, now_nanos as int)),
{
    let (now_day, now_day_secs) = day_and_second(now_secs);
    let (aired_day, aired_day_secs) = day_and_second(aired_secs);
    let leap: i128 = if now_day_secs > aired_day_secs && aired_nanos >= 1_000_000_000 {
        1
    } else if now_day_secs < aired_day_secs && now_nanos >= 1_000_000_000 {
        -1
    } else {
        0
    };
    proof {
        vstd::arithmetic::div_mod::lemma_fundamental_div_mod(now_secs as int, 86400);
        vstd::arithmetic::div_mod::lemma_fundamental_div_mod(aired_secs as int, 86400);
    }
    assert((now_day - aired_day) * 86400 + now_day_secs - aired_day_secs == now_secs - aired_secs) by (nonlinear_arith)
        requires
            now_secs == now_day * 86400 + now_day_secs,
            aired_secs == aired_day * 86400 + aired_day_secs,
    ;
    let whole: i128 = (now_day - aired_day) * 86400 + now_day_secs - aired_day_secs + leap;
    let elapsed: i128 = whole * 1_000_000_000 + (now_nanos as i128 - aired_nanos as i128);
    assert(elapsed == elapsed_nanos(aired_secs as int, aired_nanos as int, now_secs as int, now_nanos as int));
    let seconds = trunc_div_i128(elapsed, 1_000_000_000);
    let days = trunc_div_i128(seconds, 86400);
    let hours = trunc_div_i128(seconds, 3600);
    let minutes = trunc_div_i128(seconds, 60);
    assert(-0x1_0000_0000_0000_0000_0 <= seconds <= 0x1_0000_0000_0000_0000_0) by (nonlinear_arith)
        requires
            seconds == trunc_div(elapsed as int, 1_000_000_000),
            -0x1_0000_0000_0000_0000_0000_0000 < elapsed < 0x1_0000_0000_0000_0000_0000_0000,
    ;
    let mut r = String::new();
    if days > 0 {
        assert(days <= seconds);
        push_int(&mut r, days as i64);
        r.append(" days ago");
    } else if minutes > 60 {
        assert(0 <= hours <= seconds);
        push_int(&mut r, hours as i64);
        r.append(" hours ago");
    } else {
        assert(minutes >= -0x1_0000_0000_0000_0000_0 / 60);
        push_int(&mut r, minutes as i64);
        r.append(" minutes ago");
    }
    assert(r@ =~= aired_ago_text(elapsed as int));
    r
}

/// Name for the instant that `chrono::DateTime::parse_from_rfc3339` reads
/// from a text, as `DateTime::timestamp` (whole seconds since the Unix epoch,
/// in UTC) and `DateTime::timestamp_subsec_nanos` (nanoseconds past them):
/// none when the text is not an RFC 3339 date and time.
pub uninterp spec fn rfc3339_instant(text: Seq<char>) -> Option<(i64, u32)>;

/// Reads an RFC 3339 date and time with `chrono::DateTime::parse_from_rfc3339`
/// and gives its instant as `DateTime::timestamp` and
/// `DateTime::timestamp_subsec_nanos`. The contract claims only that the
/// result is a function of the text, under the name `rfc3339_instant`.
#[verifier::external_body]
fn parse_rfc3339_instant(text: &str) -> (r: Option<(i64, u32)>)
    ensures
        r == rfc3339_instant(text@),
{
    match chrono::DateTime::parse_from_rfc3339(text) {
        Ok(time) => Some((time.timestamp(), time.timestamp_subsec_nanos())),
        Err(_) => None,
    }
}

/// How long ago a series aired, from its airing time as the server writes
/// it (RFC 3339) and the instant now (whole seconds since the Unix epoch
/// and nanoseconds past them); none when the airing time is not a date and
/// time.
pub fn time_since_airing(previous_airing: &str, now_secs: i64, now_nanos: u32) -> (r: Option<String>)
    ensures
        rfc3339_instant(previous_airing@) is None ==> r is None,
        rfc3339_instant(previous_airing@) matches Some(aired) ==> (r matches Some(t) && t@
            == aired_ago_text(elapsed_nanos(aired.0 as int, aired.1 as int, now_secs as int, now_nanos as int))),
{
    match parse_rfc3339_instant(previous_airing) {
        Some((secs, nanos)) => Some(aired_ago_label(secs, nanos, now_secs, now_nanos)),
        None => None,
    }
}

} // verus!
