use torrent_bot::jackett::{
    dispatch_from_reply, format_telegram_response, format_torrent, is_movie, is_tv_show,
    jackett_results, TelegramJackettResponse, Torrent,
};
use torrent_bot::transmission::Media;

fn torrent(title: &str, seeders: i64, size: u64, categories: Vec<i64>) -> Torrent {
    Torrent {
        seeders,
        peers: 0,
        magnet_uri: format!("magnet:?xt={}", title),
        title: title.to_string(),
        categories,
        detail_url: String::new(),
        size,
    }
}

#[test]
fn listing_numbers_titles_sizes_and_seeders() {
    let response = TelegramJackettResponse {
        torrents: vec![
            torrent("Small", 3, 999, vec![]),
            torrent("Medium", -1, 1999, vec![]),
            torrent("Large", 120, 42_000_000, vec![]),
        ],
    };
    assert_eq!(
        format_torrent(&response),
        "1. Small - 999B - 3\n2. Medium - 1.9kB - -1\n3. Large - 42.0MB - 120\n"
    );
    assert_eq!(
        format_telegram_response(response),
        "<pre>1. Small - 999B - 3\n2. Medium - 1.9kB - -1\n3. Large - 42.0MB - 120\n</pre>"
    );
}

#[test]
fn si_sizes_round_down() {
    let cases = [
        (0u64, "0B"),
        (1_000, "1.0kB"),
        (1_999_999_999, "1.9GB"),
        (u64::MAX, "18.4EB"),
    ];
    for (size, text) in cases {
        let response = TelegramJackettResponse { torrents: vec![torrent("x", 0, size, vec![])] };
        assert_eq!(format_torrent(&response), format!("1. x - {} - 0\n", text));
    }
}

#[test]
fn category_ranges() {
    assert!(!is_movie(vec![1999, 3000]));
    assert!(is_movie(vec![2000]));
    assert!(is_movie(vec![5000, 2999]));
    assert!(!is_tv_show(vec![2999, 4000]));
    assert!(is_tv_show(vec![3000]));
    assert!(is_tv_show(vec![3999]));
    assert!(!is_tv_show(vec![]));
}

#[test]
fn empty_search_without_indexers_is_an_error() {
    let r = jackett_results(0, vec![]);
    assert_eq!(r.err().unwrap(), "Empty indexers. Please add one in your jackett configuration");
}

#[test]
fn empty_search_with_indexers_is_an_error() {
    let r = jackett_results(2, vec![]);
    assert_eq!(r.err().unwrap(), "No results were returned for your search");
}

#[test]
fn results_are_ranked_stably_and_cut_at_twenty() {
    let mut results = Vec::new();
    for i in 0..25i64 {
        results.push(torrent(&format!("t{}", i), i % 5, 1, vec![]));
    }
    let kept = jackett_results(0, results).ok().unwrap();
    assert_eq!(kept.torrents.len(), 20);
    let titles: Vec<String> = kept.torrents.iter().map(|t| t.title.clone()).collect();
    let expected: Vec<String> = [
        4, 9, 14, 19, 24, 3, 8, 13, 18, 23, 2, 7, 12, 17, 22, 1, 6, 11, 16, 21,
    ]
    .iter()
    .map(|i| format!("t{}", i))
    .collect();
    assert_eq!(titles, expected);
}

#[test]
fn a_reply_to_a_listing_picks_the_torrent_at_its_position() {
    let first = TelegramJackettResponse {
        torrents: vec![torrent("Show", 10, 5, vec![3040]), torrent("Film", 8, 5, vec![2040])],
    };
    let second = TelegramJackettResponse { torrents: vec![torrent("Other", 1, 5, vec![8000])] };
    let listing = format_torrent(&first);
    let quoted = listing.replace('\n', " ").trim().to_string();
    let picked = dispatch_from_reply(2, quoted.clone(), vec![second, first]).ok().unwrap();
    assert!(matches!(picked.0, Some(Media::Movie)));
    assert_eq!(picked.1, "magnet:?xt=Film");

    let again = TelegramJackettResponse {
        torrents: vec![torrent("Show", 10, 5, vec![3040]), torrent("Film", 8, 5, vec![2040])],
    };
    let tv = dispatch_from_reply(1, quoted.clone(), vec![again]).ok().unwrap();
    assert!(matches!(tv.0, Some(Media::TV)));
    assert_eq!(tv.1, "magnet:?xt=Show");
}

#[test]
fn a_torrent_without_category_has_no_kind() {
    let r = TelegramJackettResponse { torrents: vec![torrent("Other", 1, 5, vec![8000])] };
    let listing = format_torrent(&r);
    let picked = dispatch_from_reply(1, listing, vec![r]).ok().unwrap();
    assert!(picked.0.is_none());
}

#[test]
fn a_position_past_the_listing_is_an_error() {
    let r = TelegramJackettResponse { torrents: vec![torrent("Only", 1, 5, vec![2000])] };
    let listing = format_torrent(&r);
    let e = dispatch_from_reply(2, listing, vec![r]).err().unwrap();
    assert_eq!(e, "No torrent for the given index");
}

#[test]
fn a_reply_to_an_unknown_listing_is_an_error() {
    let r = TelegramJackettResponse { torrents: vec![torrent("Only", 1, 5, vec![2000])] };
    let e = dispatch_from_reply(1, "something else".to_string(), vec![r]).err().unwrap();
    assert_eq!(e, "Couldn't find torrent in list");
}
