//! The series and episodes that the media server describes, as the client
//! keeps them. Fractional figures that the server sends (percentages, audio
//! channel layouts, frame rates) are not read by any logic of the client and
//! are not held here.

use vstd::prelude::*;

use crate::sort::DisplayOrder;
use crate::sort::display_ordered;
use crate::sort::sort_for_display;
use crate::text::int_text;
use crate::text::lemma_int_text_injective;
use crate::sort::follows_display_order;
use crate::sort::lemma_display_ordered_follows_order;
use crate::sort::lemma_display_ordered_is_permutation;
use crate::text::optional_text;
use crate::text::optional_text_less;
use crate::text::lemma_text_less_asymmetric;
use crate::text::lemma_text_less_transitive;
use crate::text::push_int;
use crate::text::same_text;
use crate::text::text_is_less;

verus! {

pub type Shows = Vec<Show>;

pub type Episodes = Vec<Episode>;

#[derive(Clone, Debug, Default)]
pub struct Show {
    pub title: String,
    pub alternate_titles: Vec<AlternateTitle>,
    pub sort_title: String,
    pub status: String,
    pub ended: bool,
    pub overview: String,
    pub next_airing: Option<String>,
    pub previous_airing: Option<String>,
    pub network: String,
    pub air_time: Option<String>,
    pub images: Vec<Image>,
    pub seasons: Vec<Season>,
    pub year: i64,
    pub path: String,
    pub quality_profile_id: i64,
    pub language_profile_id: i64,
    pub season_folder: bool,
    pub monitored: bool,
    pub use_scene_numbering: bool,
    pub runtime: i64,
    pub tvdb_id: i64,
    pub tv_rage_id: i64,
    pub tv_maze_id: i64,
    pub first_aired: String,
    pub series_type: String,
    pub clean_title: String,
    pub imdb_id: String,
    pub title_slug: String,
    pub root_folder_path: String,
    pub certification: Option<String>,
    pub genres: Vec<String>,
    pub tags: Vec<i64>,
    pub added: String,
    pub ratings: Ratings,
    pub statistics: Statistics2,
    pub id: i64,
}

#[derive(Clone, Debug, Default)]
pub struct AlternateTitle {
    pub title: String,
    pub scene_season_number: Option<i64>,
    pub season_number: Option<i64>,
}

#[derive(Clone, Debug, Default)]
pub struct Image {
    pub cover_type: String,
    pub url: String,
    pub remote_url: Option<String>,
}

#[derive(Clone, Debug, Default)]
pub struct Season {
    pub season_number: i64,
    pub monitored: bool,
    pub statistics: Statistics,
}

/// Statistics of one season (the server's percentage of episodes on disk is
/// not kept).
#[derive(Clone, Debug, Default)]
pub struct Statistics {
    pub episode_file_count: i64,
    pub episode_count: i64,
    pub total_episode_count: i64,
    pub size_on_disk: i64,
    pub release_groups: Vec<String>,
    pub next_airing: Option<String>,
    pub previous_airing: Option<String>,
}

#[derive(Clone, Debug, Default)]
pub struct Ratings {
    pub votes: i64,
    pub value: i64,
}

/// Statistics of a whole series (the server's percentage of episodes on disk
/// is not kept).
#[derive(Clone, Debug, Default)]
pub struct Statistics2 {
    pub season_count: i64,
    pub episode_file_count: i64,
    pub episode_count: i64,
    pub total_episode_count: i64,
    pub size_on_disk: i64,
    pub release_groups: Vec<String>,
}

#[derive(Clone, Debug, Default)]
pub struct Episode {
    pub series_id: i64,
    pub tvdb_id: i64,
    pub episode_file_id: i64,
    pub season_number: i64,
    pub episode_number: i64,
    pub title: String,
    pub air_date: Option<String>,
    pub air_date_utc: Option<String>,
    pub overview: Option<String>,
    pub has_file: bool,
    pub monitored: bool,
    pub absolute_episode_number: Option<i64>,
    pub scene_absolute_episode_number: Option<i64>,
    pub scene_episode_number: Option<i64>,
    pub scene_season_number: Option<i64>,
    pub unverified_scene_numbering: bool,
    pub images: Vec<EpisodeImage>,
    pub id: i64,
}

#[derive(Clone, Debug, Default)]
pub struct EpisodeImage {
    pub cover_type: String,
    pub url: String,
}

#[derive(Clone, Debug, Default)]
pub struct EpisodeDetail {
    pub series_id: i64,
    pub tvdb_id: i64,
    pub episode_file_id: i64,
    pub season_number: i64,
    pub episode_number: i64,
    pub title: String,
    pub air_date: String,
    pub air_date_utc: String,
    pub overview: Option<String>,
    pub episode_file: EpisodeFile,
    pub has_file: bool,
    pub monitored: bool,
    pub absolute_episode_number: Option<i64>,
    pub scene_absolute_episode_number: Option<i64>,
    pub scene_episode_number: Option<i64>,
    pub scene_season_number: Option<i64>,
    pub unverified_scene_numbering: bool,
    pub images: Vec<Image>,
    pub id: i64,
}

#[derive(Clone, Debug, Default)]
pub struct EpisodeFile {
    pub series_id: i64,
    pub season_number: i64,
    pub relative_path: String,
    pub path: String,
    pub size: i64,
    pub date_added: String,
    pub scene_name: String,
    pub release_group: String,
    pub language: Language,
    pub quality: Quality,
    pub media_info: MediaInfo,
    pub quality_cutoff_not_met: bool,
    pub language_cutoff_not_met: bool,
    pub id: i64,
}

#[derive(Clone, Debug, Default)]
pub struct Language {
    pub id: i64,
    pub name: String,
}

#[derive(Clone, Debug, Default)]
pub struct Quality {
    pub quality: Quality2,
    pub revision: Revision,
}

#[derive(Clone, Debug, Default)]
pub struct Quality2 {
    pub id: i64,
    pub name: String,
    pub source: String,
    pub resolution: i64,
}

#[derive(Clone, Debug, Default)]
pub struct Revision {
    pub version: i64,
    pub real: i64,
    pub is_repack: bool,
}

/// Media details of an episode file (the server's audio channel layout and
/// frame rate are not kept).
#[derive(Clone, Debug, Default)]
pub struct MediaInfo {
    pub audio_bitrate: i64,
    pub audio_codec: String,
    pub audio_languages: String,
    pub audio_stream_count: i64,
    pub video_bit_depth: i64,
    pub video_bitrate: i64,
    pub video_codec: String,
    pub video_dynamic_range: String,
    pub video_dynamic_range_type: String,
    pub resolution: String,
    pub run_time: String,
    pub scan_type: String,
    pub subtitles: String,
}

// ---------------------------------------------------------------------------
// Orders in which series and seasons are listed

/// The row of recently aired series lists the series with the latest
/// previous airing first (`previous_airing` compared as text, a series that
/// never aired last).
impl DisplayOrder for Show {
    open spec fn shown_before(self, other: Self) -> bool {
        optional_text_less(optional_text(other.previous_airing), optional_text(self.previous_airing))
    }

    proof fn shown_before_asymmetric(a: Self, b: Self) {
        let (x, y) = (optional_text(a.previous_airing), optional_text(b.previous_airing));
        if let (Some(p), Some(q)) = (x, y) {
            lemma_text_less_asymmetric(q, p);
        }
    }

    proof fn shown_before_transitive(a: Self, b: Self, c: Self) {
        let (x, y, z) = (
            optional_text(a.previous_airing),
            optional_text(b.previous_airing),
            optional_text(c.previous_airing),
        );
        if let (Some(p), Some(q), Some(r)) = (x, y, z) {
            lemma_text_less_transitive(r, q, p);
        }
    }

    fn is_shown_before(&self, other: &Self) -> (r: bool) {
        match (&other.previous_airing, &self.previous_airing) {
            (None, Some(_)) => true,
            (Some(x), Some(y)) => text_is_less(x.as_str(), y.as_str()),
            _ => false,
        }
    }
}

/// Season tabs list the numbered seasons in ascending order and the specials
/// (season 0) after them.
impl DisplayOrder for Season {
    open spec fn shown_before(self, other: Self) -> bool {
        self.season_number != 0 && (other.season_number == 0 || self.season_number < other.season_number)
    }

    proof fn shown_before_asymmetric(a: Self, b: Self) {
    }

    proof fn shown_before_transitive(a: Self, b: Self, c: Self) {
    }

    fn is_shown_before(&self, other: &Self) -> (r: bool) {
        self.season_number != 0 && (other.season_number == 0 || self.season_number < other.season_number)
    }
}

/// The series of the "Recently aired" row: all series, the latest previous
/// airing first, series that aired at the same time in the order given.
pub fn recently_aired(shows: Vec<Show>) -> (r: Vec<Show>)
    ensures
        r@ == display_ordered(shows@),
{
    sort_for_display(shows)
}

/// Law: the "Recently aired" row holds the given series and lists no series
/// before one that aired later.
pub proof fn lemma_recently_aired_latest_first(shows: Seq<Show>)
    ensures
        display_ordered(shows).to_multiset() == shows.to_multiset(),
        forall|i: int, j: int|
            0 <= i < j < shows.len() ==> !optional_text_less(
                optional_text(display_ordered(shows)[i].previous_airing),
                optional_text(display_ordered(shows)[j].previous_airing),
            ),
{
    crate::sort::lemma_display_ordered_is_permutation(shows);
    crate::sort::lemma_display_ordered_follows_order(shows);
    let r = display_ordered(shows);
    assert(r.len() == shows.len()) by {
        vstd::seq_lib::to_multiset_len(r);
        vstd::seq_lib::to_multiset_len(shows);
    }
    assert forall|i: int, j: int| 0 <= i < j < shows.len() implies !optional_text_less(
        optional_text(r[i].previous_airing),
        optional_text(r[j].previous_airing),
    ) by {
        assert(!r[j].shown_before(r[i]));
    }
}

/// Law: numbered seasons are listed by number, lowest first; the specials
/// (season 0) come after every numbered season and before none.
pub proof fn lemma_season_order_by_number(a: Season, b: Season)
    ensures
        a.season_number != 0 && b.season_number != 0 ==> (a.shown_before(b) <==> a.season_number
            < b.season_number),
        a.season_number != 0 && b.season_number == 0 ==> a.shown_before(b),
        a.season_number == 0 ==> !a.shown_before(b),
{
}

/// Season numbers of the tabs: the seasons in tab order, those without
/// episodes left out.
pub open spec fn tab_numbers(seasons: Seq<Season>) -> Seq<i64>
    decreases seasons.len(),
{
    if seasons.len() == 0 {
        Seq::empty()
    } else if seasons.last().statistics.episode_count > 0 {
        tab_numbers(seasons.drop_last()).push(seasons.last().season_number)
    } else {
        tab_numbers(seasons.drop_last())
    }
}

proof fn lemma_tab_numbers_come_from_seasons(s: Seq<Season>)
    ensures
        forall|i: int|
            0 <= i < tab_numbers(s).len() ==> exists|k: int|
                0 <= k < s.len() && s[k].statistics.episode_count > 0 && #[trigger] tab_numbers(s)[i]
                    == s[k].season_number,
        forall|k: int|
            0 <= k < s.len() && (#[trigger] s[k]).statistics.episode_count > 0 ==> tab_numbers(
                s,
            ).contains(s[k].season_number),
    decreases s.len(),
{
    if s.len() > 0 {
        let init = s.drop_last();
        lemma_tab_numbers_come_from_seasons(init);
        let t = tab_numbers(s);
        let ti = tab_numbers(init);
        assert forall|i: int| 0 <= i < t.len() implies exists|k: int|
            0 <= k < s.len() && s[k].statistics.episode_count > 0 && #[trigger] t[i] == s[k].season_number by {
            if i < ti.len() {
                assert(t[i] == ti[i]);
                let k = choose|k: int|
                    0 <= k < init.len() && init[k].statistics.episode_count > 0 && #[trigger] ti[i]
                        == init[k].season_number;
                assert(s[k] == init[k]);
            } else {
                assert(s[s.len() - 1] == s.last());
            }
        }
        assert forall|k: int| 0 <= k < s.len() && (#[trigger] s[k]).statistics.episode_count > 0 implies t.contains(
            s[k].season_number,
        ) by {
            if k < s.len() - 1 {
                assert(s[k] == init[k]);
                assert(ti.contains(s[k].season_number));
                let j = choose|j: int| 0 <= j < ti.len() && ti[j] == s[k].season_number;
                assert(t[j] == ti[j]);
            } else {
                assert(t[t.len() - 1] == s.last().season_number);
            }
        }
    }
}

proof fn lemma_tab_numbers_ascending(s: Seq<Season>)
    requires
        follows_display_order(s),
    ensures
        forall|i: int, j: int|
            0 <= i < j < tab_numbers(s).len() ==> (#[trigger] tab_numbers(s)[j] == 0 || (
            #[trigger] tab_numbers(s)[i] != 0 && tab_numbers(s)[i] <= tab_numbers(s)[j])),
    decreases s.len(),
{
    if s.len() > 0 {
        let init = s.drop_last();
        assert(follows_display_order(init)) by {
            assert forall|i: int, j: int| 0 <= i < j < init.len() implies !(#[trigger] init[j]).shown_before(
                #[trigger] init[i],
            ) by {
                assert(init[i] == s[i] && init[j] == s[j]);
            }
        }
        lemma_tab_numbers_ascending(init);
        lemma_tab_numbers_come_from_seasons(init);
        let t = tab_numbers(s);
        let ti = tab_numbers(init);
        if s.last().statistics.episode_count > 0 {
            assert forall|i: int, j: int| 0 <= i < j < t.len() implies (#[trigger] t[j] == 0 || (
            #[trigger] t[i] != 0 && t[i] <= t[j])) by {
                if j < ti.len() {
                    assert(t[i] == ti[i] && t[j] == ti[j]);
                } else {
                    assert(t[i] == ti[i]);
                    let k = choose|k: int|
                        0 <= k < init.len() && init[k].statistics.episode_count > 0 && #[trigger] ti[i]
                            == init[k].season_number;
                    assert(init[k] == s[k]);
                    assert(!s[s.len() - 1].shown_before(s[k]));
                    assert(s[s.len() - 1] == s.last());
                }
            }
        }
    }
}

/// Law: the season tabs list the numbered seasons in ascending order of
/// their numbers and the specials after them.
pub proof fn lemma_season_tabs_ascending(seasons: Seq<Season>)
    ensures
        forall|i: int, j: int|
            0 <= i < j < tab_numbers(display_ordered(seasons)).len() ==> (#[trigger] tab_numbers(
                display_ordered(seasons),
            )[j] == 0 || (#[trigger] tab_numbers(display_ordered(seasons))[i] != 0 && tab_numbers(
                display_ordered(seasons),
            )[i] <= tab_numbers(display_ordered(seasons))[j])),
{
    lemma_display_ordered_follows_order(seasons);
    lemma_tab_numbers_ascending(display_ordered(seasons));
}

/// Law: a season has a tab exactly when it has episodes: every season with
/// at least one episode gets a tab, and every tab is the number of such a
/// season.
pub proof fn lemma_season_tabs_are_seasons_with_episodes(seasons: Seq<Season>)
    ensures
        forall|k: int|
            0 <= k < seasons.len() && (#[trigger] seasons[k]).statistics.episode_count >= 1
                ==> tab_numbers(display_ordered(seasons)).contains(seasons[k].season_number),
        forall|i: int|
            0 <= i < tab_numbers(display_ordered(seasons)).len() ==> exists|k: int|
                0 <= k < seasons.len() && seasons[k].statistics.episode_count >= 1
                    && #[trigger] tab_numbers(display_ordered(seasons))[i] == seasons[k].season_number,
{
    broadcast use vstd::seq_lib::group_to_multiset_ensures;

    let d = display_ordered(seasons);
    lemma_display_ordered_is_permutation(seasons);
    lemma_tab_numbers_come_from_seasons(d);
    assert forall|k: int| 0 <= k < seasons.len() && (#[trigger] seasons[k]).statistics.episode_count >= 1 implies tab_numbers(
        d,
    ).contains(seasons[k].season_number) by {
        assert(seasons.contains(seasons[k]));
        assert(d.to_multiset().count(seasons[k]) > 0);
        assert(d.contains(seasons[k]));
        let j = choose|j: int| 0 <= j < d.len() && d[j] == seasons[k];
        assert(d[j].statistics.episode_count > 0);
    }
    assert forall|i: int| 0 <= i < tab_numbers(d).len() implies exists|k: int|
        0 <= k < seasons.len() && seasons[k].statistics.episode_count >= 1 && #[trigger] tab_numbers(d)[i]
            == seasons[k].season_number by {
        let j = choose|j: int|
            0 <= j < d.len() && d[j].statistics.episode_count > 0 && #[trigger] tab_numbers(d)[i]
                == d[j].season_number;
        assert(d.contains(d[j]));
        assert(seasons.to_multiset().count(d[j]) > 0);
        assert(seasons.contains(d[j]));
        let k = choose|k: int| 0 <= k < seasons.len() && seasons[k] == d[j];
        assert(seasons[k].season_number == tab_numbers(d)[i]);
    }
}

/// The season tabs of a series page: the numbers of the seasons that have
/// episodes, numbered seasons ascending and the specials last.
pub fn season_tabs(seasons: Vec<Season>) -> (r: Vec<i64>)
    ensures
        r@ == tab_numbers(display_ordered(seasons@)),
{
    let ordered = sort_for_display(seasons);
    let mut r: Vec<i64> = Vec::new();
    let mut i: usize = 0;
    while i < ordered.len()
        invariant
            i <= ordered.len(),
            r@ == tab_numbers(ordered@.take(i as int)),
        decreases ordered.len() - i,
    {
        assert(ordered@.take(i + 1).drop_last() =~= ordered@.take(i as int));
        if ordered[i].statistics.episode_count > 0 {
            r.push(ordered[i].season_number);
        }
        i = i + 1;
    }
    assert(ordered@.take(ordered.len() as int) =~= ordered@);
    r
}

// ---------------------------------------------------------------------------
// Lookups

/// Index of the first series with the given id.
pub open spec fn first_show_with_id(shows: Seq<Show>, id: i64) -> Option<int>
    decreases shows.len(),
{
    if shows.len() == 0 {
        None
    } else if shows[0].id == id {
        Some(0)
    } else {
        match first_show_with_id(shows.drop_first(), id) {
            Some(i) => Some(i + 1),
            None => None,
        }
    }
}

/// Finds the series with the given id: the index of the first one, if any.
pub fn find_show(shows: &Vec<Show>, id: i64) -> (r: Option<usize>)
    ensures
        r matches Some(i) ==> first_show_with_id(shows@, id) == Some(i as int),
        r is None ==> first_show_with_id(shows@, id) is None,
{
    let mut i: usize = 0;
    assert(shows@.skip(0) =~= shows@);
    while i < shows.len()
        invariant
            i <= shows.len(),
            first_show_with_id(shows@, id) == match first_show_with_id(shows@.skip(i as int), id) {
                Some(k) => Some(k + i),
                None => None,
            },
        decreases shows.len() - i,
    {
        assert(shows@.skip(i as int).drop_first() =~= shows@.skip(i + 1));
        assert(shows@.skip(i as int)[0] == shows@[i as int]);
        if shows[i].id == id {
            return Some(i);
        }
        i = i + 1;
    }
    None
}

/// Indices of the episodes of season `season`, in the order given.
pub open spec fn season_episode_indices(episodes: Seq<Episode>, season: i64) -> Seq<usize>
    decreases episodes.len(),
{
    if episodes.len() == 0 {
        Seq::empty()
    } else if episodes.last().season_number == season {
        season_episode_indices(episodes.drop_last(), season).push((episodes.len() - 1) as usize)
    } else {
        season_episode_indices(episodes.drop_last(), season)
    }
}

/// The episodes listed on a series page at season `season`: the indices of
/// the episodes of that season, in the order given.
pub fn episodes_in_season(episodes: &Vec<Episode>, season: i64) -> (r: Vec<usize>)
    ensures
        r@ == season_episode_indices(episodes@, season),
{
    let mut r: Vec<usize> = Vec::new();
    let mut i: usize = 0;
    while i < episodes.len()
        invariant
            i <= episodes.len(),
            r@ == season_episode_indices(episodes@.take(i as int), season),
        decreases episodes.len() - i,
    {
        assert(episodes@.take(i + 1).drop_last() =~= episodes@.take(i as int));
        if episodes[i].season_number == season {
            r.push(i);
        }
        i = i + 1;
    }
    assert(episodes@.take(episodes.len() as int) =~= episodes@);
    r
}

/// Law: the series found for an id is the first one that has this id, and
/// none is found exactly when no series has it.
pub proof fn lemma_found_show_is_first_with_id(shows: Seq<Show>, id: i64)
    ensures
        first_show_with_id(shows, id) matches Some(i) ==> 0 <= i < shows.len() && shows[i].id == id
            && forall|k: int| 0 <= k < i ==> (#[trigger] shows[k]).id != id,
        first_show_with_id(shows, id) is None ==> forall|k: int| 0 <= k < shows.len() ==> (#[trigger] shows[k]).id
            != id,
    decreases shows.len(),
{
    if shows.len() > 0 && shows[0].id != id {
        let rest = shows.drop_first();
        lemma_found_show_is_first_with_id(rest, id);
        assert forall|k: int| 1 <= k < shows.len() implies (#[trigger] shows[k]).id == rest[k - 1].id by {}
    }
}

/// Law: the episodes listed for a season are, in order and each once, the
/// positions of exactly the episodes of that season.
pub proof fn lemma_season_episodes_are_those_of_the_season(episodes: Seq<Episode>, season: i64)
    requires
        episodes.len() <= usize::MAX,
    ensures
        forall|i: int|
            0 <= i < season_episode_indices(episodes, season).len() ==> {
                let k = #[trigger] season_episode_indices(episodes, season)[i] as int;
                0 <= k < episodes.len() && episodes[k].season_number == season
            },
        forall|i: int, j: int|
            0 <= i < j < season_episode_indices(episodes, season).len() ==> #[trigger] season_episode_indices(
                episodes,
                season,
            )[i] < #[trigger] season_episode_indices(episodes, season)[j],
        forall|k: int|
            0 <= k < episodes.len() && (#[trigger] episodes[k]).season_number == season
                ==> season_episode_indices(episodes, season).contains(k as usize),
    decreases episodes.len(),
{
    if episodes.len() > 0 {
        let init = episodes.drop_last();
        lemma_season_episodes_are_those_of_the_season(init, season);
        let r = season_episode_indices(episodes, season);
        let ri = season_episode_indices(init, season);
        assert forall|i: int| 0 <= i < r.len() implies {
            let k = #[trigger] r[i] as int;
            0 <= k < episodes.len() && episodes[k].season_number == season
        } by {
            if i < ri.len() {
                assert(r[i] == ri[i]);
                assert(episodes[ri[i] as int] == init[ri[i] as int]);
            } else {
                assert(r[i] == (episodes.len() - 1) as usize);
            }
        }
        assert forall|i: int, j: int| 0 <= i < j < r.len() implies #[trigger] r[i] < #[trigger] r[j] by {
            if j < ri.len() {
                assert(r[i] == ri[i] && r[j] == ri[j]);
            } else {
                assert(r[i] == ri[i]);
                assert(r[j] == (episodes.len() - 1) as usize);
                assert(ri[i] < init.len());
            }
        }
        assert forall|k: int| 0 <= k < episodes.len() && (#[trigger] episodes[k]).season_number == season implies r.contains(
            k as usize,
        ) by {
            if k < init.len() {
                assert(init[k] == episodes[k]);
                assert(ri.contains(k as usize));
                let j = choose|j: int| 0 <= j < ri.len() && ri[j] == k as usize;
                assert(r[j] == ri[j]);
            } else {
                assert(r[r.len() - 1] == k as usize);
            }
        }
    }
}

/// Index of the first image of the given kind.
pub open spec fn first_image_of_kind(images: Seq<Image>, cover_type: Seq<char>) -> Option<int>
    decreases images.len(),
{
    if images.len() == 0 {
        None
    } else if images[0].cover_type@ == cover_type {
        Some(0)
    } else {
        match first_image_of_kind(images.drop_first(), cover_type) {
            Some(i) => Some(i + 1),
            None => None,
        }
    }
}

/// Finds the first image of the given kind ("poster", "screenshot", ...).
pub fn find_image(images: &Vec<Image>, cover_type: &str) -> (r: Option<usize>)
    ensures
        r matches Some(i) ==> first_image_of_kind(images@, cover_type@) == Some(i as int),
        r is None ==> first_image_of_kind(images@, cover_type@) is None,
{
    let mut i: usize = 0;
    assert(images@.skip(0) =~= images@);
    while i < images.len()
        invariant
            i <= images.len(),
            first_image_of_kind(images@, cover_type@) == match first_image_of_kind(
                images@.skip(i as int),
                cover_type@,
            ) {
                Some(k) => Some(k + i),
                None => None,
            },
        decreases images.len() - i,
    {
        assert(images@.skip(i as int).drop_first() =~= images@.skip(i + 1));
        assert(images@.skip(i as int)[0] == images@[i as int]);
        if same_text(&images[i].cover_type, cover_type) {
            return Some(i);
        }
        i = i + 1;
    }
    None
}

/// Index of the first season that has episode files.
pub open spec fn first_season_with_files(seasons: Seq<Season>) -> Option<int>
    decreases seasons.len(),
{
    if seasons.len() == 0 {
        None
    } else if seasons[0].statistics.episode_file_count != 0 {
        Some(0)
    } else {
        match first_season_with_files(seasons.drop_first()) {
            Some(i) => Some(i + 1),
            None => None,
        }
    }
}

/// Law: the image found for a kind is the first image of that kind, and
/// none is found exactly when no image is of that kind.
pub proof fn lemma_found_image_is_first_of_kind(images: Seq<Image>, cover_type: Seq<char>)
    ensures
        first_image_of_kind(images, cover_type) matches Some(i) ==> 0 <= i < images.len()
            && images[i].cover_type@ == cover_type && forall|k: int|
            0 <= k < i ==> (#[trigger] images[k]).cover_type@ != cover_type,
        first_image_of_kind(images, cover_type) is None ==> forall|k: int|
            0 <= k < images.len() ==> (#[trigger] images[k]).cover_type@ != cover_type,
    decreases images.len(),
{
    if images.len() > 0 && images[0].cover_type@ != cover_type {
        let rest = images.drop_first();
        lemma_found_image_is_first_of_kind(rest, cover_type);
        assert forall|k: int| 1 <= k < images.len() implies (#[trigger] images[k]).cover_type@
            == rest[k - 1].cover_type@ by {}
    }
}

proof fn lemma_first_season_with_files(seasons: Seq<Season>)
    ensures
        first_season_with_files(seasons) matches Some(i) ==> 0 <= i < seasons.len()
            && seasons[i].statistics.episode_file_count != 0 && forall|k: int|
            0 <= k < i ==> (#[trigger] seasons[k]).statistics.episode_file_count == 0,
        first_season_with_files(seasons) is None ==> forall|k: int|
            0 <= k < seasons.len() ==> (#[trigger] seasons[k]).statistics.episode_file_count == 0,
    decreases seasons.len(),
{
    if seasons.len() > 0 && seasons[0].statistics.episode_file_count == 0 {
        let rest = seasons.drop_first();
        lemma_first_season_with_files(rest);
        assert forall|k: int| 1 <= k < seasons.len() implies (#[trigger] seasons[k]).statistics.episode_file_count
            == rest[k - 1].statistics.episode_file_count by {}
    }
}

/// Law: a series opens at the first of its seasons that has episode files:
/// no season before it has any; and at its first season when none has.
pub proof fn lemma_opens_at_first_season_with_files(seasons: Seq<Season>)
    requires
        seasons.len() > 0,
    ensures
        (exists|k: int| 0 <= k < seasons.len() && (#[trigger] seasons[k]).statistics.episode_file_count != 0)
            ==> exists|i: int|
            0 <= i < seasons.len() && seasons[i].statistics.episode_file_count != 0
                && opening_season(seasons) == seasons[i].season_number && forall|k: int|
                0 <= k < i ==> (#[trigger] seasons[k]).statistics.episode_file_count == 0,
        (forall|k: int| 0 <= k < seasons.len() ==> (#[trigger] seasons[k]).statistics.episode_file_count == 0)
            ==> opening_season(seasons) == seasons[0].season_number,
{
    lemma_first_season_with_files(seasons);
    if let Some(i) = first_season_with_files(seasons) {
        assert(0 <= i < seasons.len() && seasons[i].statistics.episode_file_count != 0
            && opening_season(seasons) == seasons[i].season_number);
    }
}

/// The season a series opens at: the first season that has episode files,
/// or else the first season.
pub open spec fn opening_season(seasons: Seq<Season>) -> i64 {
    match first_season_with_files(seasons) {
        Some(i) => seasons[i].season_number,
        None => seasons[0].season_number,
    }
}

/// The season that a click on a series opens.
pub fn season_to_open(show: &Show) -> (r: i64)
    requires
        show.seasons.len() > 0,
    ensures
        r == opening_season(show.seasons@),
{
    let seasons = &show.seasons;
    let mut i: usize = 0;
    assert(seasons@.skip(0) =~= seasons@);
    while i < seasons.len()
        invariant
            i <= seasons.len(),
            seasons == &show.seasons,
            seasons@.len() > 0,
            first_season_with_files(seasons@) == match first_season_with_files(seasons@.skip(i as int)) {
                Some(k) => Some(k + i),
                None => None,
            },
        decreases seasons.len() - i,
    {
        assert(seasons@.skip(i as int).drop_first() =~= seasons@.skip(i + 1));
        assert(seasons@.skip(i as int)[0] == seasons@[i as int]);
        if seasons[i].statistics.episode_file_count != 0 {
            assert(first_season_with_files(seasons@.skip(i as int)) == Some(0int));
            assert(first_season_with_files(seasons@) == Some(i as int));
            assert(opening_season(seasons@) == seasons@[i as int].season_number);
            return seasons[i].season_number;
        }
        i = i + 1;
    }
    seasons[0].season_number
}

/// Text of the latest season of a series: "S{season} - E{episodes}".
pub open spec fn latest_season_text(season: Season) -> Seq<char> {
    seq!['S'] + int_text(season.season_number as int) + " - E"@ + int_text(
        season.statistics.episode_count as int,
    )
}

/// Law: the caption of a season depends on its number and its episode count
/// alone, and for one season number it tells episode counts apart.
pub proof fn lemma_latest_season_text_shows_episode_count(a: Season, b: Season)
    requires
        a.season_number == b.season_number,
    ensures
        a.statistics.episode_count == b.statistics.episode_count ==> latest_season_text(a)
            == latest_season_text(b),
        latest_season_text(a) == latest_season_text(b) ==> a.statistics.episode_count
            == b.statistics.episode_count,
{
    let p = seq!['S'] + int_text(a.season_number as int) + " - E"@;
    let ta = int_text(a.statistics.episode_count as int);
    let tb = int_text(b.statistics.episode_count as int);
    assert(latest_season_text(a) =~= p + ta);
    assert(latest_season_text(b) =~= p + tb);
    if latest_season_text(a) == latest_season_text(b) {
        assert(ta =~= (p + ta).subrange(p.len() as int, (p + ta).len() as int));
        assert(tb =~= (p + tb).subrange(p.len() as int, (p + tb).len() as int));
        lemma_int_text_injective(a.statistics.episode_count as int, b.statistics.episode_count as int);
    }
}

/// The label of the latest (last listed) season of a series, if it has any.
pub fn latest_season_label(show: &Show) -> (r: Option<String>)
    ensures
        show.seasons.len() == 0 ==> r is None,
        show.seasons.len() > 0 ==> (r matches Some(t) && t@ == latest_season_text(show.seasons@.last())),
{
    let n = show.seasons.len();
    if n == 0 {
        return None;
    }
    let season = &show.seasons[n - 1];
    proof {
        reveal_strlit("S");
        reveal_strlit(" - E");
    }
    let mut t = "S".to_owned();
    push_int(&mut t, season.season_number);
    t.append(" - E");
    push_int(&mut t, season.statistics.episode_count);
    assert(t@ =~= latest_season_text(show.seasons@.last()));
    Some(t)
}

} // verus!
