use playarr::server::model::episodes_in_season;
use playarr::server::model::find_image;
use playarr::server::model::find_show;
use playarr::server::model::latest_season_label;
use playarr::server::model::recently_aired;
use playarr::server::model::season_tabs;
use playarr::server::model::season_to_open;
use playarr::server::model::Episode;
use playarr::server::model::Image;
use playarr::server::model::Season;
use playarr::server::model::Show;

fn show(id: i64, previous_airing: Option<&str>) -> Show {
    Show {
        id,
        title: format!("show {id}"),
        previous_airing: previous_airing.map(|s| s.to_string()),
        ..Show::default()
    }
}

fn season(number: i64, episodes: i64, files: i64) -> Season {
    let mut s = Season::default();
    s.season_number = number;
    s.statistics.episode_count = episodes;
    s.statistics.episode_file_count = files;
    s
}

fn ids(shows: &[Show]) -> Vec<i64> {
    shows.iter().map(|s| s.id).collect()
}

#[test]
fn recently_aired_latest_first_never_aired_last() {
    let shows = vec![
        show(1, Some("2023-01-01T00:00:00Z")),
        show(2, None),
        show(3, Some("2023-03-01T00:00:00Z")),
        show(4, Some("2022-12-31T23:00:00Z")),
        show(5, Some("2023-03-01T00:00:00Z")),
        show(6, None),
    ];
    let ordered = recently_aired(shows);
    assert_eq!(ids(&ordered), vec![3, 5, 1, 4, 2, 6]);
}

#[test]
fn recently_aired_of_nothing() {
    assert!(recently_aired(Vec::new()).is_empty());
}

#[test]
fn season_tabs_ascending_with_specials_last() {
    let seasons = vec![season(0, 3, 0), season(2, 8, 8), season(1, 10, 2), season(3, 0, 0)];
    assert_eq!(season_tabs(seasons), vec![1, 2, 0]);
    assert_eq!(season_tabs(vec![season(0, 0, 0)]), Vec::<i64>::new());
}

#[test]
fn find_show_by_id() {
    let shows = vec![show(4, None), show(9, None), show(9, Some("x"))];
    assert_eq!(find_show(&shows, 9), Some(1));
    assert_eq!(find_show(&shows, 4), Some(0));
    assert_eq!(find_show(&shows, 5), None);
}

#[test]
fn find_image_by_kind() {
    let images = vec![
        Image { cover_type: "banner".into(), url: "b".into(), remote_url: None },
        Image { cover_type: "poster".into(), url: "p".into(), remote_url: Some("rp".into()) },
        Image { cover_type: "poster".into(), url: "p2".into(), remote_url: None },
    ];
    assert_eq!(find_image(&images, "poster"), Some(1));
    assert_eq!(find_image(&images, "banner"), Some(0));
    assert_eq!(find_image(&images, "screenshot"), None);
}

#[test]
fn season_to_open_prefers_seasons_with_files() {
    let mut s = show(1, None);
    s.seasons = vec![season(0, 2, 0), season(1, 10, 0), season(2, 10, 3), season(3, 10, 5)];
    assert_eq!(season_to_open(&s), 2);
    s.seasons = vec![season(4, 2, 0), season(5, 1, 0)];
    assert_eq!(season_to_open(&s), 4);
}

#[test]
fn latest_season_label_of_last_season() {
    let mut s = show(1, None);
    assert_eq!(latest_season_label(&s), None);
    s.seasons = vec![season(1, 10, 0), season(2, 7, 3)];
    assert_eq!(latest_season_label(&s), Some("S2 - E7".to_string()));
}

#[test]
fn episodes_of_one_season() {
    let mut episodes = Vec::new();
    for (i, number) in [1i64, 2, 1, 0, 2].iter().enumerate() {
        let mut e = Episode::default();
        e.id = i as i64;
        e.season_number = *number;
        episodes.push(e);
    }
    assert_eq!(episodes_in_season(&episodes, 2), vec![1, 4]);
    assert_eq!(episodes_in_season(&episodes, 1), vec![0, 2]);
    assert_eq!(episodes_in_season(&episodes, 7), Vec::<usize>::new());
}
