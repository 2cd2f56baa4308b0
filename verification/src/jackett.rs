//! Jackett searches: the request, the ranking of the results, the listing
//! the bot sends back, and picking a torrent from a reply to that listing.

use vstd::prelude::*;
use vstd::utf8::encode_utf8;
use crate::formats::{
    form_encoded, form_urlencode, invalid_uri_text, json_accepts, json_error_text, json_member,
    json_member_is_null, json_member_string, parse_uri_path, si_size, si_size_text, uri_accepts,
    JsonMember,
};
use crate::text::{
    decimal, has_prefix, i64_to_string, same_text, signed_decimal, strip_white_space, u64_to_string,
    without_white_space,
};
use crate::transmission::Media;

verus! {

broadcast use vstd::seq_lib::group_seq_properties;

/// One search result, with the fields of Jackett's answer that the bot reads.
#[derive(Clone)]
pub struct Torrent {
    pub seeders: i64,
    pub peers: i64,
    pub magnet_uri: String,
    pub title: String,
    pub categories: Vec<i64>,
    pub detail_url: String,
    pub size: u64,
}

/// The torrents of one search, in the order the bot lists them.
#[derive(Clone)]
pub struct TelegramJackettResponse {
    pub torrents: Vec<Torrent>,
}

/// The most results a search keeps.
pub const MAX_RESULTS: usize = 20;

// ------------------------------------------------------------ configuration

/// The Jackett base URL: `JACKETT_HOST`, or the local default.
pub fn jackett_host(configured: Option<String>) -> (r: String)
    ensures
        match configured {
            Some(h) => r == h,
            None => r@ == "http://localhost:9117"@,
        },
{
    match configured {
        Some(h) => h,
        None => String::from_str("http://localhost:9117"),
    }
}

/// Where the Jackett API key comes from.
pub enum TokenSource {
    /// `JACKETT_TOKEN` holds it.
    Token(String),
    /// Read it from this Jackett configuration file.
    ConfigFile(String),
}

/// Decides where the API key comes from, given `JACKETT_TOKEN` and
/// `JACKETT_DATA_DIR`.
pub fn jackett_token(token: Option<String>, data_dir: Option<String>) -> (r: Result<
    TokenSource,
    String,
>)
    ensures
        token matches Some(t) ==> r == Ok::<TokenSource, String>(TokenSource::Token(t)),
        token is None ==> match data_dir {
            Some(d) => r matches Ok(TokenSource::ConfigFile(f)) && f@ == d@
                + "/ServerConfig.json"@,
            None => r matches Err(e) && e@
                == "Set JACKETT_TOKEN or JACKETT_DATA_DIR if jackett is in the same host"@,
        },
{
    match token {
        Some(t) => Ok(TokenSource::Token(t)),
        None => match data_dir {
            Some(d) => {
                let mut file = d;
                file.append("/ServerConfig.json");
                Ok(TokenSource::ConfigFile(file))
            },
            None => Err(
                String::from_str(
                    "Set JACKETT_TOKEN or JACKETT_DATA_DIR if jackett is in the same host",
                ),
            ),
        },
    }
}

/// The API key from the `APIKey` member of the configuration file; a member
/// that is neither null nor a string is left out (reading it fails).
pub fn api_key_from_member(member: JsonMember) -> (r: Result<String, String>)
    requires
        !(member is Other),
    ensures
        match member {
            JsonMember::Invalid(m) => r == Err::<String, String>(m),
            JsonMember::Null => r matches Err(e) && e@ == "Jackett file does not have key APIKey"@,
            JsonMember::Text(k) => r == Ok::<String, String>(k),
            JsonMember::Other => false,
        },
{
    match member {
        JsonMember::Invalid(m) => Err(m),
        JsonMember::Null => Err(String::from_str("Jackett file does not have key APIKey")),
        JsonMember::Text(k) => Ok(k),
        JsonMember::Other => Err(String::new()),
    }
}

/// What the configuration text gives for the API key: the parser's message,
/// a missing key, the key; `None` for an `APIKey` that is neither null nor a string.
pub open spec fn config_api_key(text: Seq<char>) -> Option<Result<Seq<char>, Seq<char>>> {
    if !json_accepts(text) {
        Some(Err(json_error_text(text)))
    } else if json_member_is_null(text, "APIKey"@) {
        Some(Err("Jackett file does not have key APIKey"@))
    } else {
        match json_member_string(text, "APIKey"@) {
            Some(k) => Some(Ok(k)),
            None => None,
        }
    }
}

/// The view of an optional result of strings.
pub open spec fn option_result_view(r: Option<Result<String, String>>) -> Option<Result<Seq<char>, Seq<char>>> {
    match r {
        Some(Ok(s)) => Some(Ok(s@)),
        Some(Err(e)) => Some(Err(e@)),
        None => None,
    }
}

/// The API key from the configuration file's contents, or from the error that
/// reading it gave. `None` when the file's `APIKey` is neither null nor a
/// string, on which reading the key fails outright.
pub fn api_key_from_config(contents: Result<String, String>) -> (r: Option<Result<String, String>>)
    ensures
        contents matches Err(e) ==> (r matches Some(Err(m)) && m@ == "File error "@ + e@),
        contents matches Ok(text) ==> option_result_view(r) == config_api_key(text@),
{
    match contents {
        Err(e) => {
            let mut m = String::from_str("File error ");
            m.append(e.as_str());
            Some(Err(m))
        },
        Ok(text) => {
            let member = json_member(text.as_str(), "APIKey");
            match member {
                JsonMember::Other => None,
                _ => Some(api_key_from_member(member)),
            }
        },
    }
}

} // verus!

verus! {

// ------------------------------------------------------------------ ranking

/// How many leading torrents have more seeders than `key`: where a torrent
/// with `key` seeders goes in a list ranked by seeders, ahead of its equals.
pub open spec fn insertion_index(s: Seq<Torrent>, key: i64) -> nat
    decreases s.len(),
{
    if s.len() == 0 || s[0].seeders <= key {
        0
    } else {
        1 + insertion_index(s.drop_first(), key)
    }
}

/// The torrents ranked by seeders, most first, equals kept in their order:
/// what `sort_by_key(|t| -t.seeders)`, a stable sort, gives.
pub open spec fn by_seeders(s: Seq<Torrent>) -> Seq<Torrent>
    decreases s.len(),
{
    if s.len() == 0 {
        s
    } else {
        let rest = by_seeders(s.drop_first());
        let p = insertion_index(rest, s[0].seeders) as int;
        rest.take(p) + seq![s[0]] + rest.skip(p)
    }
}

/// Every torrent before the insertion index has more seeders than `key`,
/// and the one at it (if any) no more.
pub proof fn lemma_insertion_index(s: Seq<Torrent>, key: i64)
    ensures
        insertion_index(s, key) <= s.len(),
        forall|q: int| 0 <= q < insertion_index(s, key) ==> s[q].seeders > key,
        insertion_index(s, key) < s.len() ==> s[insertion_index(s, key) as int].seeders <= key,
    decreases s.len(),
{
    if s.len() > 0 && s[0].seeders > key {
        lemma_insertion_index(s.drop_first(), key);
        assert forall|q: int| 0 <= q < insertion_index(s, key) implies s[q].seeders > key by {
            if q > 0 {
                assert(s[q] == s.drop_first()[q - 1]);
            }
        }
    }
}

/// Ranking keeps the number of torrents.
pub proof fn lemma_by_seeders_len(s: Seq<Torrent>)
    ensures
        by_seeders(s).len() == s.len(),
    decreases s.len(),
{
    if s.len() > 0 {
        lemma_by_seeders_len(s.drop_first());
        lemma_insertion_index(by_seeders(s.drop_first()), s[0].seeders);
    }
}

/// Ranked by seeders, most first.
pub open spec fn ranked(s: Seq<Torrent>) -> bool {
    forall|i: int, j: int| 0 <= i < j < s.len() ==> s[i].seeders >= s[j].seeders
}

/// Ranking orders the torrents by seeders, most first.
pub proof fn lemma_by_seeders_ranked(s: Seq<Torrent>)
    ensures
        ranked(by_seeders(s)),
    decreases s.len(),
{
    if s.len() > 0 {
        let rest = by_seeders(s.drop_first());
        let x = s[0];
        lemma_by_seeders_ranked(s.drop_first());
        lemma_insertion_index(rest, x.seeders);
        let p = insertion_index(rest, x.seeders) as int;
        let r = rest.take(p) + seq![x] + rest.skip(p);
        assert(r == by_seeders(s));
        assert forall|i: int, j: int| 0 <= i < j < r.len() implies r[i].seeders
            >= r[j].seeders by {
            if i < p && j < p {
                assert(r[i] == rest[i] && r[j] == rest[j]);
            } else if i < p && j == p {
                assert(r[i] == rest[i]);
            } else if i < p {
                assert(r[i] == rest[i] && r[j] == rest[j - 1]);
            } else if i == p {
                assert(r[j] == rest[j - 1]);
                assert(rest[p].seeders <= x.seeders);
                assert(rest[p].seeders >= rest[j - 1].seeders);
            } else {
                assert(r[i] == rest[i - 1] && r[j] == rest[j - 1]);
            }
        }
    }
}

/// Ranking neither drops nor adds a torrent.
pub proof fn lemma_by_seeders_permutes(s: Seq<Torrent>)
    ensures
        by_seeders(s).to_multiset() == s.to_multiset(),
    decreases s.len(),
{
    broadcast use vstd::seq_lib::group_to_multiset_ensures;
    broadcast use vstd::multiset::group_multiset_axioms;

    if s.len() > 0 {
        let rest = by_seeders(s.drop_first());
        lemma_by_seeders_permutes(s.drop_first());
        lemma_insertion_index(rest, s[0].seeders);
        let p = insertion_index(rest, s[0].seeders) as int;
        assert(rest.take(p) + seq![s[0]] + rest.skip(p) =~= rest.insert(p, s[0]));
        vstd::seq_lib::to_multiset_insert(rest, p, s[0]);
        assert(s =~= seq![s[0]] + s.drop_first());
        vstd::seq_lib::lemma_multiset_commutative(seq![s[0]], s.drop_first());
        assert(seq![s[0]] =~= Seq::<Torrent>::empty().push(s[0]));
        assert(s.to_multiset() =~= s.drop_first().to_multiset().insert(s[0]));
    }
}

/// The torrents with `key` seeders, in their order.
pub open spec fn with_seeders(s: Seq<Torrent>, key: i64) -> Seq<Torrent>
    decreases s.len(),
{
    if s.len() == 0 {
        s
    } else if s[0].seeders == key {
        seq![s[0]] + with_seeders(s.drop_first(), key)
    } else {
        with_seeders(s.drop_first(), key)
    }
}

proof fn lemma_with_seeders_concat(a: Seq<Torrent>, b: Seq<Torrent>, key: i64)
    ensures
        with_seeders(a + b, key) == with_seeders(a, key) + with_seeders(b, key),
    decreases a.len(),
{
    if a.len() == 0 {
        assert(a + b =~= b);
        assert(with_seeders(a, key) + with_seeders(b, key) =~= with_seeders(b, key));
    } else {
        lemma_with_seeders_concat(a.drop_first(), b, key);
        assert((a + b).drop_first() =~= a.drop_first() + b);
        assert((a + b)[0] == a[0]);
        if a[0].seeders == key {
            assert(with_seeders(a + b, key) =~= seq![a[0]] + with_seeders(a.drop_first() + b, key));
            assert(with_seeders(a + b, key) =~= with_seeders(a, key) + with_seeders(b, key));
        }
    }
}

proof fn lemma_with_seeders_none(s: Seq<Torrent>, key: i64)
    requires
        forall|q: int| 0 <= q < s.len() ==> s[q].seeders != key,
    ensures
        with_seeders(s, key) == Seq::<Torrent>::empty(),
    decreases s.len(),
{
    if s.len() > 0 {
        assert forall|q: int| 0 <= q < s.drop_first().len() implies s.drop_first()[q].seeders
            != key by {
            assert(s.drop_first()[q] == s[q + 1]);
        }
        lemma_with_seeders_none(s.drop_first(), key);
    }
}

/// Ranking is stable: the torrents with any one seeder count keep their order.
pub proof fn lemma_by_seeders_stable(s: Seq<Torrent>, key: i64)
    ensures
        with_seeders(by_seeders(s), key) == with_seeders(s, key),
    decreases s.len(),
{
    if s.len() > 0 {
        let rest = by_seeders(s.drop_first());
        let x = s[0];
        lemma_by_seeders_stable(s.drop_first(), key);
        lemma_insertion_index(rest, x.seeders);
        let p = insertion_index(rest, x.seeders) as int;
        let front = rest.take(p);
        let back = rest.skip(p);
        assert(rest =~= front + back);
        lemma_with_seeders_concat(front, back, key);
        lemma_with_seeders_concat(front + seq![x], back, key);
        lemma_with_seeders_concat(front, seq![x], key);
        assert(seq![x].drop_first() =~= Seq::<Torrent>::empty());
        assert(seq![x][0] == x);
        assert(with_seeders(Seq::<Torrent>::empty(), key) == Seq::<Torrent>::empty());
        if x.seeders == key {
            lemma_with_seeders_none(front, key);
            assert(with_seeders(seq![x], key) =~= seq![x] + with_seeders(
                Seq::<Torrent>::empty(),
                key,
            ));
            assert(with_seeders(by_seeders(s), key) =~= with_seeders(s, key));
        } else {
            assert(with_seeders(seq![x], key) =~= Seq::<Torrent>::empty());
            assert(with_seeders(by_seeders(s), key) =~= with_seeders(s, key));
        }
    }
}

/// Ranks the torrents by seeders, most first, keeping equals in order.
pub fn rank_by_seeders(torrents: Vec<Torrent>) -> (r: Vec<Torrent>)
    ensures
        r@ == by_seeders(torrents@),
{
    let ghost all = torrents@;
    let mut input = torrents;
    let mut out: Vec<Torrent> = Vec::new();
    assert(all.skip(all.len() as int) =~= Seq::<Torrent>::empty());
    assert(all.take(all.len() as int) =~= all);
    while input.len() > 0
        invariant
            input@ == all.take(input.len() as int),
            input.len() <= all.len(),
            out@ == by_seeders(all.skip(input.len() as int)),
        decreases input.len(),
    {
        let ghost k = input.len() - 1;
        let x = input.pop().unwrap();
        assert(input@ =~= all.take(k));
        assert(x == all[k]);
        let key = x.seeders;
        let mut p: usize = 0;
        while p < out.len() && out[p].seeders > key
            invariant
                p <= out.len(),
                insertion_index(out@, key) == p + insertion_index(out@.skip(p as int), key),
            decreases out.len() - p,
        {
            assert(out@.skip(p as int).drop_first() =~= out@.skip(p + 1));
            p = p + 1;
        }
        proof {
            lemma_insertion_index(out@, key);
        }
        let ghost old_out = out@;
        out.insert(p, x);
        proof {
            let sk = all.skip(k);
            assert(sk[0] == x);
            assert(sk.drop_first() =~= all.skip(k + 1));
            assert(out@ =~= old_out.take(p as int) + seq![x] + old_out.skip(p as int));
        }
    }
    assert(all.skip(0) =~= all);
    out
}

} // verus!

verus! {

// ------------------------------------------------------------------ search

/// The query string of a search: the API key and the query, form-urlencoded.
pub open spec fn search_query(token: Seq<char>, query: Seq<char>) -> Seq<char> {
    "apikey="@ + form_encoded(encode_utf8(token)) + "&Query="@ + form_encoded(encode_utf8(query))
}

/// The URL of a search over all indexers.
pub open spec fn search_url(host: Seq<char>, token: Seq<char>, query: Seq<char>) -> Seq<char> {
    host + "/api/v2.0/indexers/all/results?"@ + search_query(token, query)
}

/// The URL that asks Jackett to search all indexers, checked to parse as a URI.
pub fn jackett_search_url(host: &str, token: &str, query: &str) -> (r: Result<String, String>)
    ensures
        uri_accepts(search_url(host@, token@, query@)) ==> (r matches Ok(u) && u@ == search_url(
            host@,
            token@,
            query@,
        )),
        !uri_accepts(search_url(host@, token@, query@)) ==> (r matches Err(e) && e@
            == "Url misconfigured "@ + invalid_uri_text(search_url(host@, token@, query@))),
{
    let mut url = String::from_str(host);
    url.append("/api/v2.0/indexers/all/results?");
    url.append("apikey=");
    let t = form_urlencode(token);
    url.append(t.as_str());
    url.append("&Query=");
    let q = form_urlencode(query);
    url.append(q.as_str());
    assert(url@ =~= search_url(host@, token@, query@));
    match parse_uri_path(url.as_str()) {
        Ok(_) => Ok(url),
        Err(err) => {
            let mut m = String::from_str("Url misconfigured ");
            m.append(err.as_str());
            Err(m)
        },
    }
}

/// The smaller of two numbers.
pub open spec fn min_nat(a: nat, b: nat) -> nat {
    if a <= b {
        a
    } else {
        b
    }
}

/// What a search keeps: the twenty torrents with most seeders, ranked.
pub open spec fn kept_results(results: Seq<Torrent>) -> Seq<Torrent> {
    by_seeders(results).take(min_nat(MAX_RESULTS as nat, results.len()) as int)
}

/// No torrent has `i64::MIN` seeders, the one count whose negation overflows.
pub open spec fn seeders_negatable(results: Seq<Torrent>) -> bool {
    forall|i: int| 0 <= i < results.len() ==> results[i].seeders > i64::MIN
}

/// The answer to a search from Jackett's reply: its indexers and its results.
pub fn jackett_results(indexer_count: usize, results: Vec<Torrent>) -> (r: Result<
    TelegramJackettResponse,
    String,
>)
    requires
        seeders_negatable(results@),
    ensures
        indexer_count == 0 && results.len() == 0 ==> (r matches Err(e) && e@
            == "Empty indexers. Please add one in your jackett configuration"@),
        indexer_count != 0 && results.len() == 0 ==> (r matches Err(e) && e@
            == "No results were returned for your search"@),
        results.len() != 0 ==> (r matches Ok(resp) && resp.torrents@ == kept_results(results@)),
{
    if indexer_count == 0 && results.len() == 0 {
        return Err(String::from_str("Empty indexers. Please add one in your jackett configuration"));
    }
    let ghost given = results@;
    let mut ranked = rank_by_seeders(results);
    proof {
        lemma_by_seeders_len(given);
    }
    if ranked.len() > MAX_RESULTS {
        ranked.truncate(MAX_RESULTS);
    }
    assert(ranked@ =~= kept_results(given));
    if ranked.len() == 0 {
        return Err(String::from_str("No results were returned for your search"));
    }
    Ok(TelegramJackettResponse { torrents: ranked })
}

// ----------------------------------------------------------------- listing

/// One line of the listing: position, title, size and seeders.
pub open spec fn torrent_line(position: nat, t: Torrent) -> Seq<char> {
    decimal(position) + ". "@ + t.title@ + " - "@ + si_size(t.size as nat) + "B - "@
        + signed_decimal(t.seeders as int) + "\n"@
}

/// The listing of a search, one numbered line per torrent.
pub open spec fn torrent_listing(ts: Seq<Torrent>) -> Seq<char>
    decreases ts.len(),
{
    if ts.len() == 0 {
        seq![]
    } else {
        torrent_listing(ts.drop_last()) + torrent_line(ts.len(), ts.last())
    }
}

/// The numbered listing of a search's torrents.
pub fn format_torrent(response: &TelegramJackettResponse) -> (r: String)
    ensures
        r@ == torrent_listing(response.torrents@),
{
    let ts = &response.torrents;
    let mut text = String::new();
    let mut i: usize = 0;
    assert(ts@.take(0) =~= Seq::<Torrent>::empty());
    while i < ts.len()
        invariant
            i <= ts.len(),
            text@ == torrent_listing(ts@.take(i as int)),
        decreases ts.len() - i,
    {
        let t = &ts[i];
        let ghost before = text@;
        let number = u64_to_string((i + 1) as u64);
        text.append(number.as_str());
        text.append(". ");
        text.append(t.title.as_str());
        text.append(" - ");
        let size = si_size_text(t.size);
        text.append(size.as_str());
        text.append("B - ");
        let seeders = i64_to_string(t.seeders);
        text.append(seeders.as_str());
        text.append("\n");
        proof {
            let pre = ts@.take(i + 1);
            assert(pre.drop_last() =~= ts@.take(i as int));
            assert(pre.last() == *t);
            assert(text@ =~= before + torrent_line((i + 1) as nat, *t));
        }
        i = i + 1;
    }
    assert(ts@.take(ts.len() as int) =~= ts@);
    text
}

/// The message that answers a search: the listing as preformatted HTML.
pub fn format_telegram_response(response: TelegramJackettResponse) -> (r: String)
    ensures
        r@ == "<pre>"@ + torrent_listing(response.torrents@) + "</pre>"@,
{
    let listing = format_torrent(&response);
    let mut r = String::from_str("<pre>");
    r.append(listing.as_str());
    r.append("</pre>");
    r
}

// -------------------------------------------------------------- categories

/// Some category lies in `[low, high)`.
pub open spec fn has_category_in(categories: Seq<i64>, low: int, high: int) -> bool {
    exists|i: int| 0 <= i < categories.len() && low <= #[trigger] categories[i] < high
}

fn any_category_in(categories: &Vec<i64>, low: i64, high: i64) -> (r: bool)
    ensures
        r == has_category_in(categories@, low as int, high as int),
{
    let mut i: usize = 0;
    while i < categories.len()
        invariant
            i <= categories.len(),
            forall|k: int| 0 <= k < i ==> !(low <= #[trigger] categories@[k] < high),
        decreases categories.len() - i,
    {
        if low <= categories[i] && categories[i] < high {
            return true;
        }
        i = i + 1;
    }
    false
}

/// Newznab movie categories: 2000 to 2999.
pub open spec fn movie_category(categories: Seq<i64>) -> bool {
    has_category_in(categories, 2000, 3000)
}

/// Newznab TV categories: 3000 to 3999.
pub open spec fn tv_category(categories: Seq<i64>) -> bool {
    has_category_in(categories, 3000, 4000)
}

/// Whether some category is a movie category.
pub fn is_movie(categories: Vec<i64>) -> (r: bool)
    ensures
        r == movie_category(categories@),
{
    any_category_in(&categories, 2000, 3000)
}

/// Whether some category is a TV category.
pub fn is_tv_show(categories: Vec<i64>) -> (r: bool)
    ensures
        r == tv_category(categories@),
{
    any_category_in(&categories, 3000, 4000)
}

/// The kind of a torrent by its categories, TV first.
pub open spec fn torrent_media(t: Torrent) -> Option<Media> {
    if tv_category(t.categories@) {
        Some(Media::TV)
    } else if movie_category(t.categories@) {
        Some(Media::Movie)
    } else {
        None
    }
}

} // verus!

verus! {

// ------------------------------------------------------------------ replies

/// The reply quotes the listing of this search, white space aside.
pub open spec fn quotes_listing(reply: Seq<char>, response: TelegramJackettResponse) -> bool {
    without_white_space(torrent_listing(response.torrents@)) == without_white_space(reply)
}

/// The position of the first search whose listing the reply quotes.
pub open spec fn quoted_search(reply: Seq<char>, searches: Seq<TelegramJackettResponse>) -> Option<int>
    decreases searches.len(),
{
    if searches.len() == 0 {
        None
    } else if quotes_listing(reply, searches[0]) {
        Some(0)
    } else {
        match quoted_search(reply, searches.drop_first()) {
            Some(i) => Some(i + 1),
            None => None,
        }
    }
}

/// The search found first, if any, and that no earlier one matches.
pub proof fn lemma_quoted_search(reply: Seq<char>, searches: Seq<TelegramJackettResponse>)
    ensures
        quoted_search(reply, searches) matches Some(i) ==> 0 <= i < searches.len() && quotes_listing(
            reply,
            searches[i],
        ) && forall|j: int| 0 <= j < i ==> !quotes_listing(reply, #[trigger] searches[j]),
        quoted_search(reply, searches) is None ==> forall|j: int|
            0 <= j < searches.len() ==> !quotes_listing(reply, #[trigger] searches[j]),
    decreases searches.len(),
{
    if searches.len() > 0 {
        let rest = searches.drop_first();
        lemma_quoted_search(reply, rest);
        assert forall|j: int| 1 <= j < searches.len() implies searches[j] == rest[j - 1] by {}
    }
}

/// What a reply with position `index` to a listing picks: the kind of the
/// torrent (by category) and its magnet link, or why nothing was picked.
pub open spec fn reply_choice(index: nat, reply: Seq<char>, searches: Seq<TelegramJackettResponse>) -> Result<
    (Option<Media>, Seq<char>),
    Seq<char>,
> {
    match quoted_search(reply, searches) {
        None => Err("Couldn't find torrent in list"@),
        Some(i) => {
            let ts = searches[i].torrents@;
            if index >= 1 && index - 1 < ts.len() {
                let t = ts[index - 1];
                Ok((torrent_media(t), t.magnet_uri@))
            } else {
                Err("No torrent for the given index"@)
            }
        },
    }
}

/// The view of a pick.
pub open spec fn choice_view(r: Result<(Option<Media>, String), String>) -> Result<
    (Option<Media>, Seq<char>),
    Seq<char>,
> {
    match r {
        Ok((m, magnet)) => Ok((m, magnet@)),
        Err(e) => Err(e@),
    }
}

/// Picks the torrent at position `index` (counting from 1) of the first of
/// `searches` whose listing `reply_text` quotes.
pub fn pick_from_reply(index: u16, reply_text: &str, searches: &Vec<TelegramJackettResponse>) -> (r:
    Result<(Option<Media>, String), String>)
    requires
        index >= 1,
    ensures
        choice_view(r) == reply_choice(index as nat, reply_text@, searches@),
{
    let real_index: u16 = index - 1;
    let wanted = strip_white_space(reply_text);
    let ghost all = searches@;
    let mut i: usize = 0;
    proof {
        lemma_quoted_search(reply_text@, all);
    }
    while i < searches.len()
        invariant
            searches@ == all,
            index >= 1,
            real_index == index - 1,
            i <= all.len(),
            wanted@ == without_white_space(reply_text@),
            forall|j: int| 0 <= j < i ==> !quotes_listing(reply_text@, #[trigger] all[j]),
        decreases all.len() - i,
    {
        let listing = format_torrent(&searches[i]);
        let stripped = strip_white_space(listing.as_str());
        if same_text(stripped.as_str(), wanted.as_str()) {
            proof {
                lemma_quoted_search(reply_text@, all);
                assert(quoted_search(reply_text@, all) == Some(i as int)) by {
                    if quoted_search(reply_text@, all) is None {
                        assert(!quotes_listing(reply_text@, all[i as int]));
                    } else {
                        let k = quoted_search(reply_text@, all)->0;
                        if k < i {
                            assert(!quotes_listing(reply_text@, all[k]));
                        } else if k > i {
                            assert(!quotes_listing(reply_text@, all[i as int]));
                        }
                    }
                }
            }
            let search = &searches[i];
            if (real_index as usize) < search.torrents.len() {
                let t = &search.torrents[real_index as usize];
                let tv = any_category_in(&t.categories, 3000, 4000);
                let movie = any_category_in(&t.categories, 2000, 3000);
                let media = if tv {
                    Some(Media::TV)
                } else if movie {
                    Some(Media::Movie)
                } else {
                    None
                };
                return Ok((media, t.magnet_uri.clone()));
            } else {
                return Err(String::from_str("No torrent for the given index"));
            }
        }
        i = i + 1;
    }
    proof {
        lemma_quoted_search(reply_text@, all);
        if quoted_search(reply_text@, all) is Some {
            let k = quoted_search(reply_text@, all)->0;
            assert(!quotes_listing(reply_text@, all[k]));
        }
    }
    Err(String::from_str("Couldn't find torrent in list"))
}

/// Picks the torrent at position `index` (counting from 1) of the search
/// whose listing `reply_text` quotes.
pub fn dispatch_from_reply(
    index: u16,
    reply_text: String,
    torrents: Vec<TelegramJackettResponse>,
) -> (r: Result<(Option<Media>, String), String>)
    requires
        index >= 1,
    ensures
        choice_view(r) == reply_choice(index as nat, reply_text@, torrents@),
{
    pick_from_reply(index, reply_text.as_str(), &torrents)
}

} // verus!

verus! {

// --------------------------------------------------------------------- laws

/// A search keeps at most twenty torrents, ranked by seeders, each one of
/// the results, and none of the results it drops has more seeders than one
/// it keeps.
pub proof fn lemma_kept_results(results: Seq<Torrent>)
    ensures
        kept_results(results).len() == min_nat(MAX_RESULTS as nat, results.len()),
        ranked(kept_results(results)),
        forall|i: int|
            0 <= i < kept_results(results).len() ==> results.contains(
                #[trigger] kept_results(results)[i],
            ),
        forall|i: int, j: int|
            0 <= i < kept_results(results).len() <= j < by_seeders(results).len() ==> #[trigger] kept_results(
                results,
            )[i].seeders >= #[trigger] by_seeders(results)[j].seeders,
{
    broadcast use vstd::seq_lib::group_to_multiset_ensures;

    lemma_by_seeders_len(results);
    lemma_by_seeders_ranked(results);
    lemma_by_seeders_permutes(results);
    let all = by_seeders(results);
    let kept = kept_results(results);
    assert forall|i: int| 0 <= i < kept.len() implies results.contains(#[trigger] kept[i]) by {
        assert(kept[i] == all[i]);
        assert(all.contains(all[i]));
        assert(all.to_multiset().count(all[i]) > 0);
    }
    assert forall|i: int, j: int| 0 <= i < kept.len() <= j < all.len() implies #[trigger] kept[i].seeders
        >= #[trigger] all[j].seeders by {
        assert(kept[i] == all[i]);
    }
}

/// Replying with a position to a listing the bot sent picks the torrent at
/// that position of the first search with that listing.
pub proof fn lemma_reply_picks_listed_torrent(
    searches: Seq<TelegramJackettResponse>,
    k: int,
    reply: Seq<char>,
    index: nat,
)
    requires
        0 <= k < searches.len(),
        without_white_space(reply) == without_white_space(torrent_listing(searches[k].torrents@)),
        forall|j: int| 0 <= j < k ==> !quotes_listing(reply, #[trigger] searches[j]),
        1 <= index <= searches[k].torrents.len(),
    ensures
        reply_choice(index, reply, searches) == Ok::<(Option<Media>, Seq<char>), Seq<char>>(
            (
                torrent_media(searches[k].torrents@[index - 1]),
                searches[k].torrents@[index - 1].magnet_uri@,
            ),
        ),
{
    lemma_quoted_search(reply, searches);
    match quoted_search(reply, searches) {
        Some(i) => {
            if i < k {
                assert(!quotes_listing(reply, searches[i]));
            } else if i > k {
                assert(!quotes_listing(reply, searches[k]));
            }
        },
        None => {
            assert(!quotes_listing(reply, searches[k]));
        },
    }
}

proof fn lemma_quoted_search_white_space(
    reply: Seq<char>,
    other: Seq<char>,
    searches: Seq<TelegramJackettResponse>,
)
    requires
        without_white_space(reply) == without_white_space(other),
    ensures
        quoted_search(reply, searches) == quoted_search(other, searches),
    decreases searches.len(),
{
    if searches.len() > 0 {
        lemma_quoted_search_white_space(reply, other, searches.drop_first());
    }
}

/// Only the words of a reply count: two replies with the same characters
/// outside white space pick the same torrent.
pub proof fn lemma_reply_ignores_white_space(
    index: nat,
    reply: Seq<char>,
    other: Seq<char>,
    searches: Seq<TelegramJackettResponse>,
)
    requires
        without_white_space(reply) == without_white_space(other),
    ensures
        reply_choice(index, reply, searches) == reply_choice(index, other, searches),
{
    lemma_quoted_search_white_space(reply, other, searches);
}

} // verus!

verus! {

proof fn lemma_listing_prefix(ts: Seq<Torrent>, k: int)
    requires
        0 <= k <= ts.len(),
    ensures
        has_prefix(torrent_listing(ts), torrent_listing(ts.take(k))),
    decreases ts.len(),
{
    if k == ts.len() {
        assert(ts.take(k) =~= ts);
        assert(torrent_listing(ts).take(torrent_listing(ts).len() as int) =~= torrent_listing(ts));
    } else {
        let d = ts.drop_last();
        assert(d.take(k) =~= ts.take(k));
        lemma_listing_prefix(d, k);
        let a = torrent_listing(d);
        let p = torrent_listing(ts.take(k));
        let line = torrent_line(ts.len(), ts.last());
        assert(torrent_listing(ts) == a + line);
        assert((a + line).take(p.len() as int) =~= a.take(p.len() as int));
    }
}

/// Line `k` of a listing (counting from 1) is the number `k`, a dot, the
/// title, the SI size in bytes and the seeders; the lines before it come
/// first, so the listing starts with its first `k` lines.
pub proof fn lemma_listing_lines(ts: Seq<Torrent>, k: int)
    requires
        1 <= k <= ts.len(),
    ensures
        torrent_listing(ts.take(k)) == torrent_listing(ts.take(k - 1)) + decimal(k as nat) + ". "@
            + ts[k - 1].title@ + " - "@ + si_size(ts[k - 1].size as nat) + "B - "@ + signed_decimal(
            ts[k - 1].seeders as int,
        ) + "\n"@,
        has_prefix(torrent_listing(ts), torrent_listing(ts.take(k))),
{
    let pre = ts.take(k);
    assert(pre.drop_last() =~= ts.take(k - 1));
    assert(pre.last() == ts[k - 1]);
    assert(pre.len() == k);
    lemma_listing_prefix(ts, k);
}

/// The kind of a torrent: TV when some category lies in 3000..3999, else
/// movie when some category lies in 2000..2999, else none.
pub proof fn lemma_kind_by_categories(t: Torrent)
    ensures
        (exists|i: int| 0 <= i < t.categories@.len() && 3000 <= #[trigger] t.categories@[i] < 4000)
            ==> torrent_media(t) == Some(Media::TV),
        !(exists|i: int| 0 <= i < t.categories@.len() && 3000 <= #[trigger] t.categories@[i] < 4000)
            && (exists|i: int|
            0 <= i < t.categories@.len() && 2000 <= #[trigger] t.categories@[i] < 3000)
            ==> torrent_media(t) == Some(Media::Movie),
        !(exists|i: int| 0 <= i < t.categories@.len() && 2000 <= #[trigger] t.categories@[i] < 4000)
            ==> torrent_media(t) is None,
{
    if !(exists|i: int| 0 <= i < t.categories@.len() && 2000 <= #[trigger] t.categories@[i] < 4000) {
        assert(!tv_category(t.categories@)) by {
            if tv_category(t.categories@) {
                let i = choose|i: int| 0 <= i < t.categories@.len() && 3000 <= #[trigger] t.categories@[i] < 4000;
                assert(2000 <= t.categories@[i] < 4000);
            }
        }
        assert(!movie_category(t.categories@)) by {
            if movie_category(t.categories@) {
                let i = choose|i: int| 0 <= i < t.categories@.len() && 2000 <= #[trigger] t.categories@[i] < 3000;
                assert(2000 <= t.categories@[i] < 4000);
            }
        }
    }
}

/// A category outside the TV and movie ranges never changes a torrent's kind.
pub proof fn lemma_other_category_keeps_kind(t: Torrent, u: Torrent, c: i64)
    requires
        u.categories@ == t.categories@.push(c),
        !(2000 <= c < 4000),
    ensures
        torrent_media(u) == torrent_media(t),
{
    let a = t.categories@;
    let b = u.categories@;
    assert forall|low: int, high: int| 2000 <= low && high <= 4000 implies has_category_in(b, low, high)
        == has_category_in(a, low, high) by {
        if has_category_in(a, low, high) {
            let i = choose|i: int| 0 <= i < a.len() && low <= #[trigger] a[i] < high;
            assert(b[i] == a[i]);
        }
        if has_category_in(b, low, high) {
            let i = choose|i: int| 0 <= i < b.len() && low <= #[trigger] b[i] < high;
            if i < a.len() {
                assert(a[i] == b[i]);
            } else {
                assert(b[i] == c);
            }
        }
    }
    assert(has_category_in(b, 3000, 4000) == has_category_in(a, 3000, 4000));
    assert(has_category_in(b, 2000, 3000) == has_category_in(a, 2000, 3000));
}

} // verus!
