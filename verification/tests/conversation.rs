use torrent_bot::jackett::{format_torrent, TelegramJackettResponse, Torrent};
use torrent_bot::telegram::{
    allowed_groups, handle_message, parse_allowed_groups, Action, Event, Handling, Incoming, Stage,
};
use torrent_bot::text::{i64_to_string, split_words};
use torrent_bot::transmission::Media;

fn message(text: &str, chat_id: i64, allowed: Vec<i64>, reply: Option<Option<String>>) -> Incoming {
    Incoming { text: split_words(text), chat_id, allowed_groups: allowed, reply }
}

fn start() -> Handling {
    Handling { stage: Stage::Start, result: Ok(String::new()) }
}

fn reply_text(action: &Action) -> String {
    match action {
        Action::Reply(t) => t.clone(),
        _ => panic!("not a reply"),
    }
}

fn torrent(title: &str, seeders: i64, categories: Vec<i64>) -> Torrent {
    Torrent {
        seeders,
        peers: 0,
        magnet_uri: format!("magnet:?xt={}", title),
        title: title.to_string(),
        categories,
        detail_url: String::new(),
        size: 2_500_000,
    }
}

#[test]
fn chat_id_is_answered_in_any_chat() {
    let m = message("/chat-id", -1001234, vec![5], None);
    let mut searches = Vec::new();
    let (h, a) = handle_message(&m, start(), Event::Begin, &mut searches);
    assert!(matches!(h.stage, Stage::Done));
    assert_eq!(reply_text(&a), "Chat ID: -1001234");
}

#[test]
fn reported_chat_id_allows_the_chat() {
    let id = -1001234i64;
    let groups = allowed_groups(Some(i64_to_string(id)));
    assert_eq!(groups, vec![id]);
    let m = message("/help", id, groups, None);
    let mut searches = Vec::new();
    let (_, a) = handle_message(&m, start(), Event::Begin, &mut searches);
    assert!(reply_text(&a).contains("/torrent-tv (Magnet Link)"));
}

#[test]
fn outside_chats_get_nothing_else() {
    let m = message("/torrent-tv magnet:?xt=abc", 7, vec![1, 2], None);
    let mut searches = Vec::new();
    let (h, a) = handle_message(&m, start(), Event::Begin, &mut searches);
    assert!(matches!(h.stage, Stage::Done));
    assert_eq!(reply_text(&a), "\u{274c} \u{1f937}\u{1f3fb}\u{200d}I didn't get it!");
}

#[test]
fn allowed_group_lists() {
    assert_eq!(parse_allowed_groups("1,-2,+3"), Some(vec![1, -2, 3]));
    assert_eq!(parse_allowed_groups("1,,2"), None);
    assert_eq!(parse_allowed_groups(""), None);
    assert_eq!(allowed_groups(None), Vec::<i64>::new());
}

#[test]
fn help_is_the_help_text() {
    let m = message("/help", 1, vec![], None);
    let mut searches = Vec::new();
    let (_, a) = handle_message(&m, start(), Event::Begin, &mut searches);
    let text = reply_text(&a);
    assert!(text.starts_with("\n/torrent-tv (Magnet Link)\n/torrent-movie (Magnet Link)\n"));
    assert!(text.ends_with("tv (position)\nmovie (position)\n"));
}

#[test]
fn torrent_command_adds_and_confirms() {
    let m = message("/torrent-movie magnet:?xt=urn:btih:abc", 1, vec![], None);
    let mut searches = Vec::new();
    let (h, a) = handle_message(&m, start(), Event::Begin, &mut searches);
    match &a {
        Action::AddTorrent { magnet_url, media } => {
            assert_eq!(magnet_url, "magnet:?xt=urn:btih:abc");
            assert!(matches!(media, Media::Movie));
        }
        _ => panic!("expected a torrent"),
    }
    let (h2, a2) = handle_message(&m, h, Event::Finished(Ok(())), &mut searches);
    assert!(matches!(h2.stage, Stage::Done));
    assert_eq!(reply_text(&a2), "\u{1f9f2} Added torrent");
}

#[test]
fn torrent_command_failure_is_crossed() {
    let m = message("/torrent-tv magnet:?xt=1", 1, vec![], None);
    let mut searches = Vec::new();
    let (h, _) = handle_message(&m, start(), Event::Begin, &mut searches);
    let (_, a) = handle_message(&m, h, Event::Finished(Err("Error on transmission 200 OK".into())), &mut searches);
    assert_eq!(reply_text(&a), "\u{274c} Error on transmission 200 OK");
}

#[test]
fn torrent_command_without_link() {
    let m = message("/torrent-tv", 1, vec![], None);
    let mut searches = Vec::new();
    let (_, a) = handle_message(&m, start(), Event::Begin, &mut searches);
    assert_eq!(reply_text(&a), "\u{274c} Send the magnet-url after command (/torrent-tv magnet_url)");
}

#[test]
fn sync_runs_flexget() {
    let m = message("/sync", 1, vec![], None);
    let mut searches = Vec::new();
    let (h, a) = handle_message(&m, start(), Event::Begin, &mut searches);
    assert!(matches!(a, Action::SyncFlexget));
    let (_, a2) = handle_message(&m, h, Event::Finished(Ok(())), &mut searches);
    assert_eq!(reply_text(&a2), "\u{1f9f2} Added torrent");
}

#[test]
fn search_without_query() {
    let m = message("/search", 1, vec![], None);
    let mut searches = Vec::new();
    let (_, a) = handle_message(&m, start(), Event::Begin, &mut searches);
    assert_eq!(reply_text(&a), "\u{274c} Pass the movie/TV after command (/search Matrix 1999)");
}

#[test]
fn search_then_reply_adds_the_listed_torrent() {
    let m = message("/search  The Matrix 1999", 1, vec![], None);
    let mut searches = Vec::new();
    let (h, a) = handle_message(&m, start(), Event::Begin, &mut searches);
    match &a {
        Action::SearchJackett { query } => assert_eq!(query, "The Matrix 1999"),
        _ => panic!("expected a search"),
    }
    let found = TelegramJackettResponse {
        torrents: vec![torrent("Matrix.1999", 50, vec![2040]), torrent("Matrix.Doc", 3, vec![])],
    };
    let listing = format_torrent(&found);
    let (h2, a2) = handle_message(&m, h, Event::Found(Ok(found)), &mut searches);
    assert!(matches!(h2.stage, Stage::Done));
    assert_eq!(reply_text(&a2), format!("<pre>{}</pre>", listing));
    assert_eq!(searches.len(), 1);

    let quoted = listing.trim_end().to_string();
    let r = message("1", 1, vec![], Some(Some(quoted.clone())));
    let (h3, a3) = handle_message(&r, start(), Event::Begin, &mut searches);
    assert!(matches!(h3.stage, Stage::AfterPick));
    match &a3 {
        Action::AddTorrent { magnet_url, media } => {
            assert_eq!(magnet_url, "magnet:?xt=Matrix.1999");
            assert!(matches!(media, Media::Movie));
        }
        _ => panic!("expected a torrent"),
    }
    let (_, a4) = handle_message(&r, h3, Event::Finished(Ok(())), &mut searches);
    assert_eq!(reply_text(&a4), "\u{1f9f2} Added torrent");

    let no_kind = message("2", 1, vec![], Some(Some(quoted.clone())));
    let (_, a5) = handle_message(&no_kind, start(), Event::Begin, &mut searches);
    assert_eq!(
        reply_text(&a5),
        "\u{274c} No category for given torrent.\nReply with tv (index) or movie (index) to force it"
    );

    let forced = message("tv 2", 1, vec![], Some(Some(quoted.clone())));
    let (_, a6) = handle_message(&forced, start(), Event::Begin, &mut searches);
    match &a6 {
        Action::AddTorrent { magnet_url, media } => {
            assert_eq!(magnet_url, "magnet:?xt=Matrix.Doc");
            assert!(matches!(media, Media::TV));
        }
        _ => panic!("expected a torrent"),
    }

    let zero = message("0", 1, vec![], Some(Some(quoted.clone())));
    let (_, a7) = handle_message(&zero, start(), Event::Begin, &mut searches);
    assert!(matches!(a7, Action::Abort));

    let words = message("hello there", 1, vec![], Some(Some(quoted)));
    let (_, a8) = handle_message(&words, start(), Event::Begin, &mut searches);
    assert_eq!(
        reply_text(&a8),
        "\u{274c} Not a number.\nPossible solutions: (index), movie (index) or tv (index) "
    );
}

#[test]
fn failed_search_is_crossed_and_not_kept() {
    let m = message("/search Dune", 1, vec![], None);
    let mut searches = Vec::new();
    let (h, _) = handle_message(&m, start(), Event::Begin, &mut searches);
    let (_, a) = handle_message(&m, h, Event::Found(Err("No results were returned for your search".into())), &mut searches);
    assert_eq!(reply_text(&a), "\u{274c} No results were returned for your search");
    assert!(searches.is_empty());
}

#[test]
fn imdb_links_are_looked_up() {
    let m = message("https://www.imdb.com/title/tt0133093/", 1, vec![], None);
    let mut searches = Vec::new();
    let (h, a) = handle_message(&m, start(), Event::Begin, &mut searches);
    match &a {
        Action::LookUpImdb { url } => assert_eq!(url, "https://www.imdb.com/title/tt0133093/"),
        _ => panic!("expected a lookup"),
    }
    assert!(matches!(h.stage, Stage::AfterImdb));
    let (_, a2) = handle_message(&m, h, Event::Found(Err("OMDB_TOKEN env var is not configured".into())), &mut searches);
    assert_eq!(reply_text(&a2), "\u{274c} OMDB_TOKEN env var is not configured");

    let cmd = message("/imdb https://www.imdb.com/title/tt1/", 1, vec![], None);
    let (_, a3) = handle_message(&cmd, start(), Event::Begin, &mut searches);
    match &a3 {
        Action::LookUpImdb { url } => assert_eq!(url, "https://www.imdb.com/title/tt1/"),
        _ => panic!("expected a lookup"),
    }
}

#[test]
fn unknown_words_are_not_understood() {
    let m = message("hello", 1, vec![], None);
    let mut searches = Vec::new();
    let (_, a) = handle_message(&m, start(), Event::Begin, &mut searches);
    assert_eq!(reply_text(&a), "\u{274c} \u{1f937}\u{1f3fb}\u{200d}I didn't get it!");
}
