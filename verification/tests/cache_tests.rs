use playarr::server::image_cache::ImageStep;
use playarr::server::image_cache::NetworkImageCache;
use playarr::server::network_cache::FetchResult;
use playarr::server::network_cache::NetworkCache;

fn loaded(r: &FetchResult<Vec<u8>>) -> Option<&Vec<u8>> {
    match r {
        FetchResult::Loaded(b) => Some(b),
        _ => None,
    }
}

#[test]
fn first_fetch_requests_once() {
    let mut cache = NetworkCache::new();
    let a = cache.fetch("http://s/shows".to_string());
    assert!(matches!(a.result, FetchResult::Loading));
    assert!(a.send_request);
    let b = cache.fetch("http://s/shows".to_string());
    assert!(matches!(b.result, FetchResult::Loading));
    assert!(!b.send_request);
    let c = cache.fetch("http://s/episodes/1".to_string());
    assert!(c.send_request);
}

#[test]
fn fetch_after_complete_gives_answer() {
    let mut cache = NetworkCache::new();
    let _ = cache.fetch("u".to_string());
    cache.complete("u".to_string(), FetchResult::Loaded(vec![1, 2, 3]));
    for _ in 0..3 {
        let a = cache.fetch("u".to_string());
        assert_eq!(loaded(&a.result), Some(&vec![1, 2, 3]));
        assert!(!a.send_request);
    }
    let other = cache.fetch("v".to_string());
    assert!(other.send_request);
}

#[test]
fn errors_are_kept() {
    let mut cache = NetworkCache::new();
    cache.complete("u".to_string(), FetchResult::Error("connection refused".to_string()));
    let a = cache.fetch("u".to_string());
    match a.result {
        FetchResult::Error(m) => assert_eq!(m, "connection refused"),
        _ => panic!("expected the stored error"),
    }
    assert!(!a.send_request);
}

#[test]
fn decode_with_decodes_loaded_values_only() {
    let parse = |b: Vec<u8>| -> Result<usize, String> {
        if b.is_empty() { Err("empty body".to_string()) } else { Ok(b.len()) }
    };
    match FetchResult::Loaded(vec![7u8, 8]).decode_with(parse) {
        FetchResult::Loaded(n) => assert_eq!(n, 2),
        _ => panic!("expected a decoded value"),
    }
    match FetchResult::Loaded(Vec::<u8>::new()).decode_with(parse) {
        FetchResult::Error(m) => assert_eq!(m, "empty body"),
        _ => panic!("expected the decoder's error"),
    }
    match FetchResult::<Vec<u8>>::Error("down".to_string()).decode_with(parse) {
        FetchResult::Error(m) => assert_eq!(m, "down"),
        _ => panic!("expected the error to pass"),
    }
    assert!(matches!(FetchResult::<Vec<u8>>::Loading.decode_with(parse), FetchResult::Loading));
}

#[test]
fn image_uploads_once_then_is_ready() {
    let mut cache = NetworkCache::new();
    let mut images: NetworkImageCache<&'static str> = NetworkImageCache::new();
    let a = images.fetch_image(&mut cache, "img".to_string());
    assert!(matches!(a.step, ImageStep::Wait));
    assert!(a.send_request);
    let b = images.fetch_image(&mut cache, "img".to_string());
    assert!(matches!(b.step, ImageStep::Wait));
    assert!(!b.send_request);
    cache.complete("img".to_string(), FetchResult::Loaded(vec![9, 9]));
    let c = images.fetch_image(&mut cache, "img".to_string());
    match c.step {
        ImageStep::Upload(bytes) => assert_eq!(bytes, vec![9, 9]),
        _ => panic!("expected an upload"),
    }
    let d = images.fetch_image(&mut cache, "img".to_string());
    assert!(matches!(d.step, ImageStep::Wait));
    assert_eq!(images.ready_image("img"), None);
    images.finish_upload("img".to_string(), "decoded image");
    let e = images.fetch_image(&mut cache, "img".to_string());
    assert!(matches!(e.step, ImageStep::Ready));
    assert_eq!(images.ready_image("img"), Some(&"decoded image"));
}

#[test]
fn failed_image_waits() {
    let mut cache = NetworkCache::new();
    let mut images: NetworkImageCache<u8> = NetworkImageCache::new();
    cache.complete("img".to_string(), FetchResult::Error("404".to_string()));
    let a = images.fetch_image(&mut cache, "img".to_string());
    assert!(matches!(a.step, ImageStep::Wait));
    assert!(!a.send_request);
}

#[test]
fn answer_survives_other_traffic_and_is_never_requested_again() {
    let mut cache = NetworkCache::new();
    assert!(cache.fetch("u".to_string()).send_request);
    cache.complete("u".to_string(), FetchResult::Error("timeout".to_string()));
    for i in 0..20 {
        let other = format!("v{}", i % 3);
        let _ = cache.fetch(other.clone());
        cache.complete(other, FetchResult::Loaded(vec![i as u8]));
        let a = cache.fetch("u".to_string());
        assert!(!a.send_request);
        match a.result {
            FetchResult::Error(m) => assert_eq!(m, "timeout"),
            _ => panic!("the stored error must come back"),
        }
    }
}

#[test]
fn pending_upload_keeps_waiting() {
    let mut cache = NetworkCache::new();
    let mut images: NetworkImageCache<u8> = NetworkImageCache::new();
    cache.complete("img".to_string(), FetchResult::Loaded(vec![1]));
    assert!(matches!(images.fetch_image(&mut cache, "img".to_string()).step, ImageStep::Upload(_)));
    for i in 0..10u8 {
        images.finish_upload(format!("other{i}"), i);
        cache.complete("img".to_string(), FetchResult::Loaded(vec![i]));
        let a = images.fetch_image(&mut cache, "img".to_string());
        assert!(matches!(a.step, ImageStep::Wait));
        assert!(!a.send_request);
    }
    assert_eq!(images.ready_image("img"), None);
}
