use playarr::server::client::get_url_for_fetch;
use playarr::server::client::watch_url;
use playarr::server::client::Fetch;

#[test]
fn urls_of_fetches() {
    let server = "http://localhost:8000";
    assert_eq!(get_url_for_fetch(server, &Fetch::Shows), "http://localhost:8000/shows");
    assert_eq!(
        get_url_for_fetch(server, &Fetch::Episodes(12)),
        "http://localhost:8000/shows/12/episodes"
    );
    assert_eq!(
        get_url_for_fetch(server, &Fetch::Episode(345)),
        "http://localhost:8000/episodes/345"
    );
    assert_eq!(get_url_for_fetch("", &Fetch::Episode(-1)), "/episodes/-1");
}

#[test]
fn watch_url_of_episode() {
    assert_eq!(
        watch_url("http://media.local", 77),
        "http://media.local/episodes/77/watch"
    );
}

#[test]
fn fetches_have_distinct_urls() {
    let server = "http://s";
    let fetches = [
        Fetch::Shows,
        Fetch::Episodes(1),
        Fetch::Episodes(-1),
        Fetch::Episodes(11),
        Fetch::Episode(1),
        Fetch::Episode(11),
    ];
    for (i, a) in fetches.iter().enumerate() {
        for (j, b) in fetches.iter().enumerate() {
            let same = get_url_for_fetch(server, a) == get_url_for_fetch(server, b);
            assert_eq!(same, i == j);
        }
    }
}
