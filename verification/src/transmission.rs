//! What the bot sends to Transmission's RPC endpoint to add a torrent, and
//! how it reads the first answer.

use vstd::prelude::*;
use vstd::utf8::encode_utf8;
use crate::formats::{base64_encode, base64_standard, json_quote, json_string, status_text, canonical_reason};
use crate::text::decimal;

verus! {

/// The kind of download, which decides the download directory.
pub enum Media {
    TV,
    Movie,
}

/// The environment variable that names the download directory for a kind.
///
/// A TV show reads `TRANSMISSION_MOVIE_PATH` and a movie
/// `TRANSMISSION_TV_PATH`: the two are crossed over.
pub open spec fn download_dir_variable_name(media: Media) -> Seq<char> {
    match media {
        Media::TV => "TRANSMISSION_MOVIE_PATH"@,
        Media::Movie => "TRANSMISSION_TV_PATH"@,
    }
}

/// The environment variable that `add_torrent` reads the download directory from.
pub fn download_dir_variable(media: &Media) -> (r: String)
    ensures
        r@ == download_dir_variable_name(*media),
{
    match media {
        Media::TV => String::from_str("TRANSMISSION_MOVIE_PATH"),
        Media::Movie => String::from_str("TRANSMISSION_TV_PATH"),
    }
}

/// The download directory, from the value of its environment variable.
pub fn transmission_path(configured: Option<String>) -> (r: Result<String, String>)
    ensures
        match configured {
            Some(path) => r == Ok::<String, String>(path),
            None => r matches Err(e) && e@
                == "TRANSMISSION_TV_PATH or TRANSMISSION_MOVIE_PATH env var is not set"@,
        },
{
    match configured {
        Some(path) => Ok(path),
        None => Err(
            String::from_str("TRANSMISSION_TV_PATH or TRANSMISSION_MOVIE_PATH env var is not set"),
        ),
    }
}

/// The Transmission base URL: `TRANSMISSION_URL`, or the local default.
pub open spec fn transmission_base(configured: Option<Seq<char>>) -> Seq<char> {
    match configured {
        Some(url) => url,
        None => "http://localhost:9091"@,
    }
}

/// The RPC endpoint for the configured base URL.
pub fn transmission_rpc_url(configured: Option<String>) -> (r: String)
    ensures
        r@ == transmission_base(
            match configured {
                Some(u) => Some(u@),
                None => None,
            },
        ) + "/transmission/rpc"@,
{
    let mut url = match configured {
        Some(u) => u,
        None => String::from_str("http://localhost:9091"),
    };
    url.append("/transmission/rpc");
    url
}

/// The `Authorization` header for `TRANSMISSION_CREDENTIALS` ("user:password"):
/// "Basic " and the base64 of the credentials' UTF-8 bytes.
pub fn authorization_header(credentials: Option<String>) -> (r: Option<String>)
    ensures
        match credentials {
            Some(c) => r matches Some(h) && h@ == "Basic "@ + base64_standard(encode_utf8(c@)),
            None => r is None,
        },
{
    match credentials {
        Some(c) => {
            let encoded = base64_encode(c.as_str().as_bytes());
            let mut header = String::from_str("Basic ");
            header.append(encoded.as_str());
            Some(header)
        },
        None => None,
    }
}

/// The JSON body of a `torrent-add` call, keys in the order serde_json
/// writes them.
pub open spec fn torrent_add_json(path: Seq<char>, magnet_url: Seq<char>) -> Seq<char> {
    "{\"arguments\":{\"download-dir\":"@ + json_string(path) + ",\"filename\":"@ + json_string(
        magnet_url,
    ) + "},\"method\":\"torrent-add\"}"@
}

/// The body of the RPC request that adds `magnet_url` to download into `path`.
pub fn torrent_add_body(path: &str, magnet_url: &str) -> (r: String)
    ensures
        r@ == torrent_add_json(path@, magnet_url@),
{
    let mut body = String::from_str("{\"arguments\":{\"download-dir\":");
    let p = json_quote(path);
    body.append(p.as_str());
    body.append(",\"filename\":");
    let m = json_quote(magnet_url);
    body.append(m.as_str());
    body.append("},\"method\":\"torrent-add\"}");
    body
}

/// What follows the first RPC call.
pub enum RpcFollowUp {
    /// Send the call again with this session id.
    Retry(String),
    /// Give up with this message.
    Fail(String),
}

/// How a status code is displayed.
pub open spec fn status_display(code: u16) -> Seq<char> {
    decimal(code as nat) + seq![' '] + match canonical_reason(code) {
        Some(reason) => reason,
        None => "<unknown status code>"@,
    }
}

/// Reads the answer to the first RPC call. Transmission answers the first
/// call with 409 and a session id; any other status is an error, 200 included.
pub fn after_first_call(status: u16, session_id: Option<String>) -> (r: RpcFollowUp)
    requires
        100 <= status <= 999,
    ensures
        status == 409 ==> match session_id {
            Some(id) => r == RpcFollowUp::Retry(id),
            None => r matches RpcFollowUp::Fail(m) && m@
                == "First request to transmission doesn't bring the token {}"@,
        },
        status != 409 ==> (r matches RpcFollowUp::Fail(m) && m@ == "Error on transmission "@
            + status_display(status)),
{
    if status == 409 {
        match session_id {
            Some(id) => RpcFollowUp::Retry(id),
            None => RpcFollowUp::Fail(
                String::from_str("First request to transmission doesn't bring the token {}"),
            ),
        }
    } else {
        let mut m = String::from_str("Error on transmission ");
        let s = status_text(status);
        m.append(s.as_str());
        RpcFollowUp::Fail(m)
    }
}

} // verus!
