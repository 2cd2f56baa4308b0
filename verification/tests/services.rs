use torrent_bot::flexget::{
    execute_magnet_url, flexget_command, flexget_outcome, flexget_path, sync_flexget,
    CommandOutcome, Media as FlexgetMedia,
};
use torrent_bot::imdb::{imdb_title, omdb_answer, omdb_request_url, omdb_token, OmdbData};
use torrent_bot::jackett::{
    api_key_from_config, jackett_host, jackett_search_url, jackett_token, TokenSource,
};
use torrent_bot::transmission::{
    after_first_call, authorization_header, download_dir_variable, torrent_add_body,
    transmission_path, transmission_rpc_url, Media, RpcFollowUp,
};

#[test]
fn flexget_lines() {
    assert_eq!(
        execute_magnet_url("magnet:?xt=1".into(), FlexgetMedia::TV),
        "flexget execute --task download-tv-manual --cli-config 'magnet=magnet:?xt=1'"
    );
    assert_eq!(
        execute_magnet_url("m".into(), FlexgetMedia::Movie),
        "flexget execute --task download-movie-manual --cli-config 'magnet=m'"
    );
    assert_eq!(sync_flexget(), "flexget execute --no-cache --discover-now");
    assert_eq!(flexget_command("--help".into()), "flexget execute --help");
}

#[test]
fn flexget_configuration_and_outcomes() {
    assert_eq!(flexget_path(None).err().unwrap(), "FLEXGET_PATH not configured");
    assert_eq!(flexget_path(Some("/srv".into())).ok().unwrap(), "/srv");
    assert!(flexget_outcome(CommandOutcome::Finished { success: true, stderr: b"x".to_vec() }).is_ok());
    assert_eq!(
        flexget_outcome(CommandOutcome::Finished { success: false, stderr: "caf\u{e9}".as_bytes().to_vec() })
            .err()
            .unwrap(),
        "caf\u{e9}"
    );
    assert_eq!(
        flexget_outcome(CommandOutcome::Finished { success: false, stderr: vec![0xff, 0x41] })
            .err()
            .unwrap(),
        "Error when converting stderr\nCheck logs"
    );
    assert_eq!(flexget_outcome(CommandOutcome::NotStarted("boom".into())).err().unwrap(), "boom");
}

#[test]
fn imdb_ids_from_links() {
    assert_eq!(imdb_title("https://www.imdb.com/title/tt0133093/".into()).ok().unwrap(), "tt0133093");
    assert_eq!(imdb_title("https://www.imdb.com/title/tt0133093?ref=x".into()).ok().unwrap(), "tt0133093");
    assert_eq!(
        imdb_title("https://www.imdb.com/".into()).err().unwrap(),
        "Couldn't find the imdb id from the url"
    );
    let bad = "http://exa mple.com/";
    let expected = format!("Undefined IMDB url {}", bad.parse::<hyper::Uri>().unwrap_err());
    assert_eq!(imdb_title(bad.into()).err().unwrap(), expected);
}

#[test]
fn omdb_requests_and_answers() {
    assert_eq!(omdb_token(None).err().unwrap(), "OMDB_TOKEN env var is not configured");
    assert_eq!(
        omdb_request_url("k", "tt1").ok().unwrap(),
        "http://www.omdbapi.com/?apikey=k&i=tt1"
    );
    assert!(omdb_request_url("k y", "tt1").err().unwrap().starts_with("Broken IMDB url "));
    let found = OmdbData {
        response: Some("True".into()),
        title: Some("The Matrix".into()),
        year: Some("1999".into()),
        error: None,
    };
    assert_eq!(omdb_answer(found, String::new()).ok().unwrap(), "The Matrix (1999)");
    let missing = OmdbData {
        response: Some("False".into()),
        title: None,
        year: None,
        error: Some("Incorrect IMDb ID.".into()),
    };
    assert_eq!(omdb_answer(missing, String::new()).ok().unwrap(), "Incorrect IMDb ID.");
    let odd = OmdbData { response: Some("Maybe".into()), title: None, year: None, error: None };
    assert_eq!(omdb_answer(odd, "{\"raw\":1}".into()).ok().unwrap(), "{\"raw\":1}");
    let none = OmdbData { response: None, title: Some("a\"b".into()), year: None, error: None };
    assert_eq!(
        omdb_answer(none, String::new()).err().unwrap(),
        "OMDB didn't include a Response in the response OmdbData { response: None, title: Some(\"a\\\"b\"), year: None, error: None }"
    );
}

#[test]
fn jackett_configuration() {
    assert_eq!(jackett_host(None), "http://localhost:9117");
    assert_eq!(jackett_host(Some("http://j:1".into())), "http://j:1");
    assert!(matches!(jackett_token(Some("t".into()), Some("/d".into())), Ok(TokenSource::Token(t)) if t == "t"));
    assert!(matches!(jackett_token(None, Some("/d".into())), Ok(TokenSource::ConfigFile(f)) if f == "/d/ServerConfig.json"));
    assert_eq!(
        jackett_token(None, None).err().unwrap(),
        "Set JACKETT_TOKEN or JACKETT_DATA_DIR if jackett is in the same host"
    );
}

#[test]
fn jackett_api_key_from_the_configuration_file() {
    assert_eq!(api_key_from_config(Ok("{\"APIKey\":\"abc\"}".into())), Some(Ok("abc".to_string())));
    assert_eq!(
        api_key_from_config(Ok("{\"Port\":9117}".into())),
        Some(Err("Jackett file does not have key APIKey".to_string()))
    );
    assert_eq!(
        api_key_from_config(Ok("{\"APIKey\":null}".into())),
        Some(Err("Jackett file does not have key APIKey".to_string()))
    );
    assert_eq!(api_key_from_config(Ok("{\"APIKey\":5}".into())), None);
    let parse_error = serde_json::from_str::<serde_json::Value>("not json").unwrap_err().to_string();
    assert_eq!(api_key_from_config(Ok("not json".into())), Some(Err(parse_error)));
    assert_eq!(
        api_key_from_config(Err("No such file or directory (os error 2)".into())),
        Some(Err("File error No such file or directory (os error 2)".to_string()))
    );
}

#[test]
fn jackett_search_urls_are_form_encoded() {
    assert_eq!(
        jackett_search_url("http://localhost:9117", "a b", "The Matrix & co/\u{e9}*").ok().unwrap(),
        "http://localhost:9117/api/v2.0/indexers/all/results?apikey=a+b&Query=The+Matrix+%26+co%2F%C3%A9*"
    );
    let e = jackett_search_url("http://local host", "k", "q").err().unwrap();
    assert!(e.starts_with("Url misconfigured "));
}

#[test]
fn transmission_requests() {
    assert_eq!(download_dir_variable(&Media::TV), "TRANSMISSION_MOVIE_PATH");
    assert_eq!(download_dir_variable(&Media::Movie), "TRANSMISSION_TV_PATH");
    assert_eq!(
        transmission_path(None).err().unwrap(),
        "TRANSMISSION_TV_PATH or TRANSMISSION_MOVIE_PATH env var is not set"
    );
    assert_eq!(transmission_rpc_url(None), "http://localhost:9091/transmission/rpc");
    assert_eq!(transmission_rpc_url(Some("http://t:1".into())), "http://t:1/transmission/rpc");
    assert_eq!(authorization_header(Some("user:pass".into())), Some("Basic dXNlcjpwYXNz".to_string()));
    assert_eq!(authorization_header(Some("ab".into())), Some("Basic YWI=".to_string()));
    assert_eq!(authorization_header(Some("a".into())), Some("Basic YQ==".to_string()));
    assert_eq!(authorization_header(None), None);
    assert_eq!(
        torrent_add_body("/data/tv", "magnet:?xt=1&dn=\"a\\b\"\n\u{1}"),
        "{\"arguments\":{\"download-dir\":\"/data/tv\",\"filename\":\"magnet:?xt=1&dn=\\\"a\\\\b\\\"\\n\\u0001\"},\"method\":\"torrent-add\"}"
    );
}

#[test]
fn transmission_body_matches_serde_json() {
    let body = torrent_add_body("/d", "magnet:?\u{7}");
    let mut arguments = serde_json::Map::new();
    arguments.insert("download-dir".to_string(), serde_json::Value::String("/d".to_string()));
    arguments.insert("filename".to_string(), serde_json::Value::String("magnet:?\u{7}".to_string()));
    let mut call = serde_json::Map::new();
    call.insert("method".to_string(), serde_json::Value::String("torrent-add".to_string()));
    call.insert("arguments".to_string(), serde_json::Value::Object(arguments));
    assert_eq!(body, serde_json::Value::Object(call).to_string());
}

#[test]
fn transmission_first_answers() {
    assert!(matches!(after_first_call(409, Some("s1".into())), RpcFollowUp::Retry(s) if s == "s1"));
    assert!(matches!(after_first_call(409, None), RpcFollowUp::Fail(m) if m == "First request to transmission doesn't bring the token {}"));
    assert!(matches!(after_first_call(200, None), RpcFollowUp::Fail(m) if m == "Error on transmission 200 OK"));
    assert!(matches!(after_first_call(599, None), RpcFollowUp::Fail(m) if m == "Error on transmission 599 <unknown status code>"));
}
