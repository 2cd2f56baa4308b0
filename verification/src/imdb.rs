//! Turning an IMDB link into a search title through the OMDB API.

use vstd::prelude::*;
use crate::formats::{debug_text, invalid_uri_text, parse_uri_path, str_debug, uri_accepts, uri_path};
use crate::text::{pieces, same_text, split_on};

verus! {

/// The OMDB API key, from the value of `OMDB_TOKEN`.
pub fn omdb_token(configured: Option<String>) -> (r: Result<String, String>)
    ensures
        match configured {
            Some(token) => r == Ok::<String, String>(token),
            None => r matches Err(e) && e@ == "OMDB_TOKEN env var is not configured"@,
        },
{
    match configured {
        Some(token) => Ok(token),
        None => Err(String::from_str("OMDB_TOKEN env var is not configured")),
    }
}

/// The last non-empty piece, if any.
pub open spec fn last_nonempty(parts: Seq<Seq<char>>) -> Option<Seq<char>>
    decreases parts.len(),
{
    if parts.len() == 0 {
        None
    } else if parts.last().len() > 0 {
        Some(parts.last())
    } else {
        last_nonempty(parts.drop_last())
    }
}

/// The IMDB id in a link: the last non-empty segment of the URI's path.
pub open spec fn imdb_id(url: Seq<char>) -> Option<Seq<char>> {
    last_nonempty(pieces(uri_path(url), '/'))
}

/// The IMDB id of a link such as "https://www.imdb.com/title/tt0133093/".
pub fn imdb_title(imdb_url: String) -> (r: Result<String, String>)
    ensures
        !uri_accepts(imdb_url@) ==> (r matches Err(e) && e@ == "Undefined IMDB url "@
            + invalid_uri_text(imdb_url@)),
        uri_accepts(imdb_url@) ==> match imdb_id(imdb_url@) {
            Some(id) => r matches Ok(t) && t@ == id,
            None => r matches Err(e) && e@ == "Couldn't find the imdb id from the url"@,
        },
{
    let path = match parse_uri_path(imdb_url.as_str()) {
        Ok(p) => p,
        Err(err) => {
            let mut m = String::from_str("Undefined IMDB url ");
            m.append(err.as_str());
            return Err(m);
        },
    };
    let parts = split_on(path.as_str(), '/');
    let mut i = parts.len();
    assert(parts.deep_view().take(i as int) =~= parts.deep_view());
    while i > 0
        invariant
            i <= parts.len(),
            uri_accepts(imdb_url@),
            parts.deep_view() == pieces(uri_path(imdb_url@), '/'),
            last_nonempty(parts.deep_view()) == last_nonempty(parts.deep_view().take(i as int)),
        decreases i,
    {
        let ghost pre = parts.deep_view().take(i as int);
        assert(pre.last() == parts[i - 1]@);
        assert(pre.drop_last() =~= parts.deep_view().take(i - 1));
        if parts[i - 1].as_str().is_empty() {
            i = i - 1;
        } else {
            return Ok(parts[i - 1].clone());
        }
    }
    Err(String::from_str("Couldn't find the imdb id from the url"))
}

/// The OMDB request for an IMDB id.
pub open spec fn omdb_url(token: Seq<char>, id: Seq<char>) -> Seq<char> {
    "http://www.omdbapi.com/?apikey="@ + token + "&i="@ + id
}

/// The OMDB request URL, checked to parse as a URI.
pub fn omdb_request_url(token: &str, title: &str) -> (r: Result<String, String>)
    ensures
        uri_accepts(omdb_url(token@, title@)) ==> (r matches Ok(u) && u@ == omdb_url(
            token@,
            title@,
        )),
        !uri_accepts(omdb_url(token@, title@)) ==> (r matches Err(e) && e@ == "Broken IMDB url "@
            + invalid_uri_text(omdb_url(token@, title@))),
{
    let mut url = String::from_str("http://www.omdbapi.com/?apikey=");
    url.append(token);
    url.append("&i=");
    url.append(title);
    match parse_uri_path(url.as_str()) {
        Ok(_) => Ok(url),
        Err(err) => {
            let mut m = String::from_str("Broken IMDB url ");
            m.append(err.as_str());
            Err(m)
        },
    }
}

/// The fields of an OMDB answer that the bot reads.
pub struct OmdbData {
    pub response: Option<String>,
    pub title: Option<String>,
    pub year: Option<String>,
    pub error: Option<String>,
}

/// `{:?}` of an optional string.
pub open spec fn option_debug(o: Option<String>) -> Seq<char> {
    match o {
        Some(s) => "Some("@ + str_debug(s@) + ")"@,
        None => "None"@,
    }
}

/// `{:?}` of an OMDB answer, as `derive(Debug)` writes it.
pub open spec fn omdb_debug(data: OmdbData) -> Seq<char> {
    "OmdbData { response: "@ + option_debug(data.response) + ", title: "@ + option_debug(data.title)
        + ", year: "@ + option_debug(data.year) + ", error: "@ + option_debug(data.error) + " }"@
}

fn push_option_debug(out: &mut String, o: &Option<String>)
    ensures
        final(out)@ == old(out)@ + option_debug(*o),
{
    match o {
        Some(s) => {
            out.append("Some(");
            let d = debug_text(s.as_str());
            out.append(d.as_str());
            out.append(")");
        },
        None => out.append("None"),
    }
}

/// The `Response` field says the lookup worked.
pub open spec fn says_true(o: Option<String>) -> bool {
    o matches Some(s) && s@ == "True"@
}

/// The `Response` field says the lookup failed.
pub open spec fn says_false(o: Option<String>) -> bool {
    o matches Some(s) && s@ == "False"@
}

/// The answer to an IMDB lookup, from OMDB's reply and its raw body:
/// "Title (Year)" when OMDB found it, OMDB's error text when it did not.
pub fn omdb_answer(data: OmdbData, body: String) -> (r: Result<String, String>)
    requires
        says_true(data.response) ==> data.title is Some && data.year is Some,
        says_false(data.response) ==> data.error is Some,
    ensures
        data.response is None ==> (r matches Err(e) && e@
            == "OMDB didn't include a Response in the response "@ + omdb_debug(data)),
        says_true(data.response) ==> (r matches Ok(t) && t@ == data.title->0@ + " ("@
            + data.year->0@ + ")"@),
        says_false(data.response) ==> r == Ok::<String, String>(data.error->0),
        data.response is Some && !says_true(data.response) && !says_false(data.response) ==> r
            == Ok::<String, String>(body),
{
    match &data.response {
        None => {
            let mut m = String::from_str("OMDB didn't include a Response in the response ");
            m.append("OmdbData { response: ");
            push_option_debug(&mut m, &data.response);
            m.append(", title: ");
            push_option_debug(&mut m, &data.title);
            m.append(", year: ");
            push_option_debug(&mut m, &data.year);
            m.append(", error: ");
            push_option_debug(&mut m, &data.error);
            m.append(" }");
            Err(m)
        },
        Some(response) => {
            proof {
                reveal_strlit("True");
                reveal_strlit("False");
                assert("True"@.len() != "False"@.len());
            }
            if same_text(response.as_str(), "True") {
                let title = data.title.unwrap();
                let year = data.year.unwrap();
                let mut t = title;
                t.append(" (");
                t.append(year.as_str());
                t.append(")");
                Ok(t)
            } else if same_text(response.as_str(), "False") {
                Ok(data.error.unwrap())
            } else {
                Ok(body)
            }
        },
    }
}

} // verus!
