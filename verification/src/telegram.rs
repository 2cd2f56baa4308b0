//! Handling one Telegram message: which chats may use the bot, what a
//! message asks for, and the reply. The handling alternates with outside
//! work (adding a torrent, running FlexGet, searching), so it is a state
//! machine: each step takes the event that the last action produced and
//! gives the next state and action.

use vstd::prelude::*;
use crate::jackett::{
    lemma_reply_picks_listed_torrent, pick_from_reply, quotes_listing, reply_choice,
    torrent_listing, torrent_media, TelegramJackettResponse,
};
use crate::text::{
    all_digits, decimal, has_prefix, i64_to_string, join_from, joined, lemma_decimal_reads_back,
    lemma_pieces_without_separator, lemma_signed_decimal_parses, parse_i64, parse_integer,
    parse_natural, parse_u16, pieces, same_text, signed_decimal, split_on, starts_with,
    without_white_space,
};
use crate::transmission::Media;

verus! {

// ------------------------------------------------------------ allowed chats

/// A piece of `TELEGRAM_ALLOWED_GROUPS` read as a chat id.
pub open spec fn chat_id_of(s: Seq<char>) -> Option<i64> {
    match parse_integer(s) {
        Some(v) => if i64::MIN <= v <= i64::MAX {
            Some(v as i64)
        } else {
            None
        },
        None => None,
    }
}

/// The chat ids of some pieces, if every piece is one.
pub open spec fn chat_ids(parts: Seq<Seq<char>>) -> Option<Seq<i64>>
    decreases parts.len(),
{
    if parts.len() == 0 {
        Some(seq![])
    } else {
        match (chat_ids(parts.drop_last()), chat_id_of(parts.last())) {
            (Some(ids), Some(id)) => Some(ids.push(id)),
            _ => None,
        }
    }
}

/// The chat ids of a comma-separated list, if every piece is one.
pub open spec fn group_ids(value: Seq<char>) -> Option<Seq<i64>> {
    chat_ids(pieces(value, ','))
}

/// Reads a comma-separated list of chat ids; `None` when a piece is not one.
pub fn parse_allowed_groups(value: &str) -> (r: Option<Vec<i64>>)
    ensures
        match r {
            Some(ids) => group_ids(value@) == Some(ids@),
            None => group_ids(value@) is None,
        },
{
    let parts = split_on(value, ',');
    let mut ids: Vec<i64> = Vec::new();
    let mut i: usize = 0;
    assert(parts.deep_view().take(0) =~= Seq::<Seq<char>>::empty());
    while i < parts.len()
        invariant
            parts.deep_view() == pieces(value@, ','),
            i <= parts.len(),
            chat_ids(parts.deep_view().take(i as int)) == Some(ids@),
        decreases parts.len() - i,
    {
        let ghost pre = parts.deep_view().take(i + 1);
        assert(pre.drop_last() =~= parts.deep_view().take(i as int));
        assert(pre.last() == parts[i as int]@);
        match parse_i64(parts[i].as_str()) {
            Some(id) => {
                ids.push(id);
            },
            None => {
                proof {
                    lemma_chat_ids_prefix(parts.deep_view(), i + 1);
                }
                return None;
            },
        }
        i = i + 1;
    }
    assert(parts.deep_view().take(parts.len() as int) =~= parts.deep_view());
    Some(ids)
}

/// A list whose prefix holds a piece that is no chat id has no chat ids.
pub proof fn lemma_chat_ids_prefix(parts: Seq<Seq<char>>, k: int)
    requires
        0 <= k <= parts.len(),
        chat_ids(parts.take(k)) is None,
    ensures
        chat_ids(parts) is None,
    decreases parts.len(),
{
    if k < parts.len() {
        assert(parts.drop_last().take(k) =~= parts.take(k));
        lemma_chat_ids_prefix(parts.drop_last(), k);
    } else {
        assert(parts.take(k) =~= parts);
    }
}

/// The chats allowed to use the bot, from `TELEGRAM_ALLOWED_GROUPS`; none
/// configured means every chat. Every piece of the list must be a chat id.
pub fn allowed_groups(configured: Option<String>) -> (r: Vec<i64>)
    requires
        configured matches Some(v) ==> group_ids(v@) is Some,
    ensures
        match configured {
            Some(v) => group_ids(v@) == Some(r@),
            None => r@.len() == 0,
        },
{
    match configured {
        Some(v) => match parse_allowed_groups(v.as_str()) {
            Some(ids) => ids,
            None => Vec::new(),
        },
        None => Vec::new(),
    }
}

/// Whether a chat may use the bot: no list, or the chat is on it.
pub open spec fn chat_allowed(groups: Seq<i64>, chat_id: i64) -> bool {
    groups.len() == 0 || groups.contains(chat_id)
}

fn is_allowed(groups: &Vec<i64>, chat_id: i64) -> (r: bool)
    ensures
        r == chat_allowed(groups@, chat_id),
{
    if groups.len() == 0 {
        return true;
    }
    let mut i: usize = 0;
    while i < groups.len()
        invariant
            i <= groups.len(),
            forall|k: int| 0 <= k < i ==> groups@[k] != chat_id,
        decreases groups.len() - i,
    {
        if groups[i] == chat_id {
            assert(groups@.contains(groups@[i as int]));
            return true;
        }
        i = i + 1;
    }
    false
}

} // verus!

verus! {

// ------------------------------------------------------------------ message

/// A message as the bot sees it.
pub struct Incoming {
    /// The words of the message; there is at least one.
    pub text: Vec<String>,
    /// The chat it came from.
    pub chat_id: i64,
    /// The chats allowed to use the bot; empty means all.
    pub allowed_groups: Vec<i64>,
    /// The message it replies to, if any, and that message's text, if any.
    pub reply: Option<Option<String>>,
}

/// Where the handling of a message stands.
pub enum Stage {
    /// Nothing done yet.
    Start,
    /// A torrent picked from a reply is being added.
    AfterPick,
    /// An IMDB link is being looked up and searched.
    AfterImdb,
    /// A command's torrent or FlexGet run is under way.
    AfterCommand,
    /// A `/search` is under way.
    AfterSearch,
    /// The answer is out.
    Done,
}

/// The state of the handling: its stage and the answer so far.
pub struct Handling {
    pub stage: Stage,
    pub result: Result<String, String>,
}

/// What the last action produced.
pub enum Event {
    /// The message has just arrived.
    Begin,
    /// A torrent was added, or FlexGet ran.
    Finished(Result<(), String>),
    /// A search came back.
    Found(Result<TelegramJackettResponse, String>),
}

/// What to do next.
pub enum Action {
    /// Hand this magnet link to Transmission.
    AddTorrent { magnet_url: String, media: Media },
    /// Make FlexGet run its tasks now.
    SyncFlexget,
    /// Read the title of this IMDB link and search Jackett for it.
    LookUpImdb { url: String },
    /// Search Jackett for this query.
    SearchJackett { query: String },
    /// Send this answer.
    Reply(String),
    /// Send nothing.
    Stop,
    /// Position 0 was given in a reply: taking 1 from it fails.
    Abort,
}

/// The view of an answer.
pub open spec fn result_view(r: Result<String, String>) -> Result<Seq<char>, Seq<char>> {
    match r {
        Ok(t) => Ok(t@),
        Err(e) => Err(e@),
    }
}

/// The state of the handling, with strings as character sequences.
pub struct HandlingView {
    pub stage: Stage,
    pub result: Result<Seq<char>, Seq<char>>,
}

impl View for Handling {
    type V = HandlingView;

    open spec fn view(&self) -> HandlingView {
        HandlingView { stage: self.stage, result: result_view(self.result) }
    }
}

/// An action, with strings as character sequences.
pub enum ActionView {
    AddTorrent(Seq<char>, Media),
    SyncFlexget,
    LookUpImdb(Seq<char>),
    SearchJackett(Seq<char>),
    Reply(Seq<char>),
    Stop,
    Abort,
}

impl View for Action {
    type V = ActionView;

    open spec fn view(&self) -> ActionView {
        match self {
            Action::AddTorrent { magnet_url, media } => ActionView::AddTorrent(magnet_url@, *media),
            Action::SyncFlexget => ActionView::SyncFlexget,
            Action::LookUpImdb { url } => ActionView::LookUpImdb(url@),
            Action::SearchJackett { query } => ActionView::SearchJackett(query@),
            Action::Reply(t) => ActionView::Reply(t@),
            Action::Stop => ActionView::Stop,
            Action::Abort => ActionView::Abort,
        }
    }
}

/// An event, with strings as character sequences.
pub enum EventView {
    Begin,
    Finished(Result<(), Seq<char>>),
    Found(Result<TelegramJackettResponse, Seq<char>>),
}

impl View for Event {
    type V = EventView;

    open spec fn view(&self) -> EventView {
        match self {
            Event::Begin => EventView::Begin,
            Event::Finished(Ok(())) => EventView::Finished(Ok(())),
            Event::Finished(Err(e)) => EventView::Finished(Err(e@)),
            Event::Found(Ok(r)) => EventView::Found(Ok(*r)),
            Event::Found(Err(e)) => EventView::Found(Err(e@)),
        }
    }
}

// -------------------------------------------------------------- the model

/// The first word of the message.
pub open spec fn first_word(m: Incoming) -> Seq<char> {
    m.text@[0]@
}

/// The last word of the message.
pub open spec fn last_word(m: Incoming) -> Seq<char> {
    m.text@.last()@
}

/// The answer to a message that asks for nothing the bot knows.
pub open spec fn not_understood() -> Seq<char> {
    "\u{1f937}\u{1f3fb}\u{200d}I didn't get it!"@
}

/// The answer after a torrent was added or FlexGet ran.
pub open spec fn added_text() -> Seq<char> {
    "\u{1f9f2} Added torrent"@
}

/// The help text.
pub open spec fn help_text() -> Seq<char> {
    "\n/torrent-tv (Magnet Link)\n/torrent-movie (Magnet Link)\n/search (Movie or TV Show e.g. The Matrix or Simpsons s01e01)\n/imdb (Imdb link). Requires omdb token set https://www.omdbapi.com/\n\nReply the magnet links with:\nPosition of the torrent\nIf jackett doesn't provide a category, it's possible to force with:\ntv (position)\nmovie (position)\n"@
}

/// Where IMDB links start.
pub open spec fn imdb_site() -> Seq<char> {
    "https://www.imdb.com"@
}

/// The answer before any request is served: the chat id for `/chat-id`.
pub open spec fn opening_result(m: Incoming) -> Result<Seq<char>, Seq<char>> {
    if first_word(m) == "/chat-id"@ {
        Ok("Chat ID: "@ + signed_decimal(m.chat_id as int))
    } else {
        Err(not_understood())
    }
}

/// The answer after adding a torrent or running FlexGet.
pub open spec fn finished_result(r: Result<(), Seq<char>>) -> Result<Seq<char>, Seq<char>> {
    match r {
        Ok(()) => Ok(added_text()),
        Err(e) => Err(e),
    }
}

/// The answer after a search: its listing, or why it failed.
pub open spec fn found_result(r: Result<TelegramJackettResponse, Seq<char>>) -> Result<
    Seq<char>,
    Seq<char>,
> {
    match r {
        Ok(resp) => Ok("<pre>"@ + torrent_listing(resp.torrents@) + "</pre>"@),
        Err(e) => Err(e),
    }
}

/// The searches after a search came back: a found one is kept for replies.
pub open spec fn found_searches(
    searches: Seq<TelegramJackettResponse>,
    r: Result<TelegramJackettResponse, Seq<char>>,
) -> Seq<TelegramJackettResponse> {
    match r {
        Ok(resp) => searches.push(resp),
        Err(_) => searches,
    }
}

/// The last step: the answer goes out, an error marked with a cross; an
/// empty answer is not sent.
pub open spec fn finish(r: Result<Seq<char>, Seq<char>>) -> (HandlingView, ActionView) {
    (
        HandlingView { stage: Stage::Done, result: r },
        match r {
            Ok(t) => if t.len() == 0 {
                ActionView::Stop
            } else {
                ActionView::Reply(t)
            },
            Err(e) => ActionView::Reply("\u{274c} "@ + e),
        },
    )
}

/// The commands, served after everything else; any other first word keeps
/// the answer so far.
pub open spec fn command_step(m: Incoming, r: Result<Seq<char>, Seq<char>>) -> (
    HandlingView,
    ActionView,
) {
    let w = first_word(m);
    if w == "/torrent-tv"@ {
        if m.text.len() <= 1 {
            finish(Err("Send the magnet-url after command (/torrent-tv magnet_url)"@))
        } else {
            (
                HandlingView { stage: Stage::AfterCommand, result: r },
                ActionView::AddTorrent(m.text@[1]@, Media::TV),
            )
        }
    } else if w == "/torrent-movie"@ {
        if m.text.len() <= 1 {
            finish(Err("Send the magnet-url after command (/torrent-movie magnet_url)"@))
        } else {
            (
                HandlingView { stage: Stage::AfterCommand, result: r },
                ActionView::AddTorrent(m.text@[1]@, Media::Movie),
            )
        }
    } else if w == "/sync"@ {
        (HandlingView { stage: Stage::AfterCommand, result: r }, ActionView::SyncFlexget)
    } else if w == "/help"@ {
        finish(Ok(help_text()))
    } else if w == "/search"@ {
        if m.text.len() <= 1 {
            finish(Err("Pass the movie/TV after command (/search Matrix 1999)"@))
        } else {
            (
                HandlingView { stage: Stage::AfterSearch, result: r },
                ActionView::SearchJackett(joined(m.text.deep_view().skip(1), " "@)),
            )
        }
    } else {
        finish(r)
    }
}

/// The IMDB link of a message: the first word if it is one, else the last
/// word when that is one or the first word is `/imdb`.
pub open spec fn imdb_link(m: Incoming) -> Option<Seq<char>> {
    if has_prefix(first_word(m), imdb_site()) {
        Some(first_word(m))
    } else if has_prefix(last_word(m), imdb_site()) || first_word(m) == "/imdb"@ {
        Some(last_word(m))
    } else {
        None
    }
}

/// Looking up an IMDB link, when the message holds one, then the commands.
pub open spec fn imdb_step(m: Incoming, r: Result<Seq<char>, Seq<char>>) -> (
    HandlingView,
    ActionView,
) {
    match imdb_link(m) {
        Some(url) => (HandlingView { stage: Stage::AfterImdb, result: r }, ActionView::LookUpImdb(url)),
        None => command_step(m, r),
    }
}

/// A number as `parse::<u16>` reads it.
pub open spec fn position_of(s: Seq<char>) -> Option<nat> {
    match parse_natural(s) {
        Some(v) => if v <= u16::MAX {
            Some(v)
        } else {
            None
        },
        None => None,
    }
}

/// What a reply asks for: "tv N" and "movie N" force the kind; otherwise
/// the first word is the position.
pub open spec fn reply_request(m: Incoming) -> (Option<Media>, Option<nat>) {
    if first_word(m) == "tv"@ {
        (Some(Media::TV), position_of(last_word(m)))
    } else if first_word(m) == "movie"@ {
        (Some(Media::Movie), position_of(last_word(m)))
    } else {
        (None, position_of(first_word(m)))
    }
}

/// A reply to a listing: pick the torrent at the given position and add it,
/// then look for an IMDB link.
pub open spec fn reply_step(
    m: Incoming,
    searches: Seq<TelegramJackettResponse>,
    r: Result<Seq<char>, Seq<char>>,
) -> (HandlingView, ActionView) {
    match m.reply {
        None => imdb_step(m, r),
        Some(quoted) => {
            let (forced, position) = reply_request(m);
            match position {
                None => imdb_step(
                    m,
                    Err("Not a number.\nPossible solutions: (index), movie (index) or tv (index) "@),
                ),
                Some(n) => match quoted {
                    None => imdb_step(m, r),
                    Some(reply_text) => if n == 0 {
                        (HandlingView { stage: Stage::Done, result: r }, ActionView::Abort)
                    } else {
                        match reply_choice(n, reply_text@, searches) {
                            Err(e) => imdb_step(m, Err(e)),
                            Ok((category, magnet)) => match (forced, category) {
                                (Some(media), _) => (
                                    HandlingView { stage: Stage::AfterPick, result: r },
                                    ActionView::AddTorrent(magnet, media),
                                ),
                                (None, Some(media)) => (
                                    HandlingView { stage: Stage::AfterPick, result: r },
                                    ActionView::AddTorrent(magnet, media),
                                ),
                                (None, None) => imdb_step(
                                    m,
                                    Err(
                                        "No category for given torrent.\nReply with tv (index) or movie (index) to force it"@,
                                    ),
                                ),
                            },
                        }
                    },
                },
            }
        },
    }
}

/// The first step: the chat id for `/chat-id`; from an allowed chat, the
/// reply, the IMDB link and the commands in that order.
pub open spec fn begin_step(m: Incoming, searches: Seq<TelegramJackettResponse>) -> (
    HandlingView,
    ActionView,
) {
    if chat_allowed(m.allowed_groups@, m.chat_id) {
        reply_step(m, searches, opening_result(m))
    } else {
        finish(opening_result(m))
    }
}

/// The event fits the stage.
pub open spec fn event_fits(stage: Stage, e: EventView) -> bool {
    match stage {
        Stage::Start => e is Begin,
        Stage::AfterPick => e is Finished,
        Stage::AfterImdb => e is Found,
        Stage::AfterCommand => e is Finished,
        Stage::AfterSearch => e is Found,
        Stage::Done => false,
    }
}

/// One step of the handling: the next state, the next action, and the
/// searches kept for replies.
pub open spec fn handle_step(
    m: Incoming,
    h: HandlingView,
    e: EventView,
    searches: Seq<TelegramJackettResponse>,
) -> (HandlingView, ActionView, Seq<TelegramJackettResponse>) {
    match (h.stage, e) {
        (Stage::Start, _) => {
            let (h2, a) = begin_step(m, searches);
            (h2, a, searches)
        },
        (Stage::AfterPick, EventView::Finished(r)) => {
            let (h2, a) = imdb_step(m, finished_result(r));
            (h2, a, searches)
        },
        (Stage::AfterImdb, EventView::Found(r)) => {
            let (h2, a) = command_step(m, found_result(r));
            (h2, a, found_searches(searches, r))
        },
        (Stage::AfterCommand, EventView::Finished(r)) => {
            let (h2, a) = finish(finished_result(r));
            (h2, a, searches)
        },
        (Stage::AfterSearch, EventView::Found(r)) => {
            let (h2, a) = finish(found_result(r));
            (h2, a, found_searches(searches, r))
        },
        _ => (h, ActionView::Stop, searches),
    }
}

} // verus!

verus! {

// ------------------------------------------------------------ the machine

fn opening(m: &Incoming) -> (r: Result<String, String>)
    requires
        m.text.len() >= 1,
    ensures
        result_view(r) == opening_result(*m),
{
    if same_text(m.text[0].as_str(), "/chat-id") {
        let mut t = String::from_str("Chat ID: ");
        let id = i64_to_string(m.chat_id);
        t.append(id.as_str());
        Ok(t)
    } else {
        Err(String::from_str("\u{1f937}\u{1f3fb}\u{200d}I didn't get it!"))
    }
}

fn finish_with(r: Result<String, String>) -> (out: (Handling, Action))
    ensures
        (out.0@, out.1@) == finish(result_view(r)),
{
    let action = match &r {
        Ok(t) => if t.as_str().is_empty() {
            Action::Stop
        } else {
            Action::Reply(t.clone())
        },
        Err(e) => {
            let mut m = String::from_str("\u{274c} ");
            m.append(e.as_str());
            Action::Reply(m)
        },
    };
    (Handling { stage: Stage::Done, result: r }, action)
}

fn finished_with(r: Result<(), String>) -> (out: Result<String, String>)
    ensures
        result_view(out) == finished_result(
            match r {
                Ok(()) => Ok(()),
                Err(e) => Err(e@),
            },
        ),
{
    match r {
        Ok(()) => Ok(String::from_str("\u{1f9f2} Added torrent")),
        Err(e) => Err(e),
    }
}

/// Keeps a found search for later replies and answers with its listing.
pub fn add_response(
    response: Result<TelegramJackettResponse, String>,
    responses: &mut Vec<TelegramJackettResponse>,
) -> (r: Result<String, String>)
    ensures
        result_view(r) == found_result(
            match response {
                Ok(x) => Ok(x),
                Err(e) => Err(e@),
            },
        ),
        final(responses)@ == found_searches(
            old(responses)@,
            match response {
                Ok(x) => Ok(x),
                Err(e) => Err(e@),
            },
        ),
{
    match response {
        Ok(found) => {
            let listing = crate::jackett::format_torrent(&found);
            let mut t = String::from_str("<pre>");
            t.append(listing.as_str());
            t.append("</pre>");
            responses.push(found);
            Ok(t)
        },
        Err(e) => Err(e),
    }
}

fn command_with(m: &Incoming, r: Result<String, String>) -> (out: (Handling, Action))
    requires
        m.text.len() >= 1,
    ensures
        (out.0@, out.1@) == command_step(*m, result_view(r)),
{
    let w = m.text[0].as_str();
    if same_text(w, "/torrent-tv") {
        if m.text.len() <= 1 {
            finish_with(Err(String::from_str("Send the magnet-url after command (/torrent-tv magnet_url)")))
        } else {
            (
                Handling { stage: Stage::AfterCommand, result: r },
                Action::AddTorrent { magnet_url: m.text[1].clone(), media: Media::TV },
            )
        }
    } else if same_text(w, "/torrent-movie") {
        if m.text.len() <= 1 {
            finish_with(
                Err(String::from_str("Send the magnet-url after command (/torrent-movie magnet_url)")),
            )
        } else {
            (
                Handling { stage: Stage::AfterCommand, result: r },
                Action::AddTorrent { magnet_url: m.text[1].clone(), media: Media::Movie },
            )
        }
    } else if same_text(w, "/sync") {
        (Handling { stage: Stage::AfterCommand, result: r }, Action::SyncFlexget)
    } else if same_text(w, "/help") {
        finish_with(Ok(String::from_str("\n/torrent-tv (Magnet Link)\n/torrent-movie (Magnet Link)\n/search (Movie or TV Show e.g. The Matrix or Simpsons s01e01)\n/imdb (Imdb link). Requires omdb token set https://www.omdbapi.com/\n\nReply the magnet links with:\nPosition of the torrent\nIf jackett doesn't provide a category, it's possible to force with:\ntv (position)\nmovie (position)\n")))
    } else if same_text(w, "/search") {
        if m.text.len() <= 1 {
            finish_with(Err(String::from_str("Pass the movie/TV after command (/search Matrix 1999)")))
        } else {
            let query = join_from(&m.text, 1, " ");
            (Handling { stage: Stage::AfterSearch, result: r }, Action::SearchJackett { query })
        }
    } else {
        finish_with(r)
    }
}

fn imdb_with(m: &Incoming, r: Result<String, String>) -> (out: (Handling, Action))
    requires
        m.text.len() >= 1,
    ensures
        (out.0@, out.1@) == imdb_step(*m, result_view(r)),
{
    let first = &m.text[0];
    let last = &m.text[m.text.len() - 1];
    if starts_with(first.as_str(), "https://www.imdb.com") {
        (Handling { stage: Stage::AfterImdb, result: r }, Action::LookUpImdb { url: first.clone() })
    } else if starts_with(last.as_str(), "https://www.imdb.com") || same_text(first.as_str(), "/imdb") {
        (Handling { stage: Stage::AfterImdb, result: r }, Action::LookUpImdb { url: last.clone() })
    } else {
        command_with(m, r)
    }
}

fn request_of(m: &Incoming) -> (out: (Option<Media>, Option<u16>))
    requires
        m.text.len() >= 1,
    ensures
        out.0 == reply_request(*m).0,
        match reply_request(*m).1 {
            Some(n) => out.1 == Some(n as u16),
            None => out.1 is None,
        },
{
    let first = m.text[0].as_str();
    let last = m.text[m.text.len() - 1].as_str();
    if same_text(first, "tv") {
        (Some(Media::TV), parse_u16(last))
    } else if same_text(first, "movie") {
        (Some(Media::Movie), parse_u16(last))
    } else {
        (None, parse_u16(first))
    }
}

fn reply_with(m: &Incoming, searches: &Vec<TelegramJackettResponse>, r: Result<String, String>) -> (out: (
    Handling,
    Action,
))
    requires
        m.text.len() >= 1,
    ensures
        (out.0@, out.1@) == reply_step(*m, searches@, result_view(r)),
{
    match &m.reply {
        None => imdb_with(m, r),
        Some(quoted) => {
            let (forced, position) = request_of(m);
            match position {
                None => imdb_with(
                    m,
                    Err(
                        String::from_str(
                            "Not a number.\nPossible solutions: (index), movie (index) or tv (index) ",
                        ),
                    ),
                ),
                Some(n) => match quoted {
                    None => imdb_with(m, r),
                    Some(reply_text) => {
                        if n == 0 {
                            return (Handling { stage: Stage::Done, result: r }, Action::Abort);
                        }
                        match pick_from_reply(n, reply_text.as_str(), searches) {
                            Err(e) => imdb_with(m, Err(e)),
                            Ok((category, magnet)) => match forced {
                                Some(media) => (
                                    Handling { stage: Stage::AfterPick, result: r },
                                    Action::AddTorrent { magnet_url: magnet, media },
                                ),
                                None => match category {
                                    Some(media) => (
                                        Handling { stage: Stage::AfterPick, result: r },
                                        Action::AddTorrent { magnet_url: magnet, media },
                                    ),
                                    None => imdb_with(
                                        m,
                                        Err(
                                            String::from_str(
                                                "No category for given torrent.\nReply with tv (index) or movie (index) to force it",
                                            ),
                                        ),
                                    ),
                                },
                            },
                        }
                    },
                },
            }
        },
    }
}

/// One step of handling `message`: takes what the last action produced and
/// gives the next state and action. The searches that came back are kept in
/// `responses`, where replies to their listings find them.
pub fn handle_message(
    message: &Incoming,
    handling: Handling,
    event: Event,
    responses: &mut Vec<TelegramJackettResponse>,
) -> (r: (Handling, Action))
    requires
        message.text.len() >= 1,
        event_fits(handling.stage, event@),
    ensures
        (r.0@, r.1@, final(responses)@) == handle_step(
            *message,
            handling@,
            event@,
            old(responses)@,
        ),
{
    match handling.stage {
        Stage::Start => {
            let opened = opening(message);
            if is_allowed(&message.allowed_groups, message.chat_id) {
                reply_with(message, responses, opened)
            } else {
                finish_with(opened)
            }
        },
        Stage::AfterPick => match event {
            Event::Finished(outcome) => imdb_with(message, finished_with(outcome)),
            _ => (handling, Action::Stop),
        },
        Stage::AfterImdb => match event {
            Event::Found(found) => {
                let answer = add_response(found, responses);
                command_with(message, answer)
            },
            _ => (handling, Action::Stop),
        },
        Stage::AfterCommand => match event {
            Event::Finished(outcome) => finish_with(finished_with(outcome)),
            _ => (handling, Action::Stop),
        },
        Stage::AfterSearch => match event {
            Event::Found(found) => {
                let answer = add_response(found, responses);
                finish_with(answer)
            },
            _ => (handling, Action::Stop),
        },
        Stage::Done => (handling, Action::Stop),
    }
}

} // verus!

verus! {

// --------------------------------------------------------------------- laws

/// The chat id that `/chat-id` reports, put in `TELEGRAM_ALLOWED_GROUPS`,
/// reads back as that chat, which is then allowed.
pub proof fn lemma_reported_chat_id_allows_chat(id: i64)
    ensures
        group_ids(signed_decimal(id as int)) == Some(seq![id]),
        chat_allowed(seq![id], id),
{
    let s = signed_decimal(id as int);
    lemma_signed_decimal_parses(id as int);
    let digits = if id < 0 {
        decimal((-id) as nat)
    } else {
        decimal(id as nat)
    };
    lemma_decimal_reads_back(if id < 0 {
        (-id) as nat
    } else {
        id as nat
    });
    assert(!s.contains(',')) by {
        if s.contains(',') {
            let k = choose|k: int| 0 <= k < s.len() && s[k] == ',';
            if id < 0 {
                if k > 0 {
                    assert(s[k] == digits[k - 1]);
                    assert(all_digits(digits));
                }
            } else {
                assert(all_digits(digits));
                assert(s[k] == digits[k]);
            }
        }
    }
    lemma_pieces_without_separator(s, ',');
    assert(seq![s].drop_last() =~= Seq::<Seq<char>>::empty());
    assert(seq![s].last() == s);
    assert(Seq::<i64>::empty().push(id) =~= seq![id]);
    assert(chat_ids(Seq::<Seq<char>>::empty()) == Some(Seq::<i64>::empty()));
    assert(chat_id_of(s) == Some(id));
    assert(chat_ids(seq![s]) == Some(seq![id]));
    assert(seq![id].contains(id)) by {
        assert(seq![id][0] == id);
    }
}

/// A chat that may not use the bot gets only the chat id or the "not
/// understood" answer: nothing is added, searched or run for it.
pub proof fn lemma_outside_chat_is_only_answered(
    m: Incoming,
    h: HandlingView,
    searches: Seq<TelegramJackettResponse>,
)
    requires
        h.stage is Start,
        !chat_allowed(m.allowed_groups@, m.chat_id),
    ensures
        ({
            let (h2, a, s2) = handle_step(m, h, EventView::Begin, searches);
            &&& h2.stage is Done
            &&& s2 == searches
            &&& a == match opening_result(m) {
                Ok(t) => ActionView::Reply(t),
                Err(e) => ActionView::Reply("\u{274c} "@ + e),
            }
        }),
{
    reveal_strlit("Chat ID: ");
}

/// The rank of a stage: each step of the handling moves to a higher one.
pub open spec fn stage_rank(stage: Stage) -> nat {
    match stage {
        Stage::Start => 0,
        Stage::AfterPick => 1,
        Stage::AfterImdb => 2,
        Stage::AfterCommand => 3,
        Stage::AfterSearch => 3,
        Stage::Done => 4,
    }
}

/// Every step moves the handling forward, so a message is handled in at
/// most five steps and the last one gives the answer.
pub proof fn lemma_handling_moves_forward(
    m: Incoming,
    h: HandlingView,
    e: EventView,
    searches: Seq<TelegramJackettResponse>,
)
    requires
        event_fits(h.stage, e),
    ensures
        stage_rank(handle_step(m, h, e, searches).0.stage) > stage_rank(h.stage),
{
}

/// A step keeps every search it had and adds at most one, at the end.
pub proof fn lemma_searches_only_grow(
    m: Incoming,
    h: HandlingView,
    e: EventView,
    searches: Seq<TelegramJackettResponse>,
)
    requires
        event_fits(h.stage, e),
    ensures
        ({
            let s2 = handle_step(m, h, e, searches).2;
            &&& searches.len() <= s2.len() <= searches.len() + 1
            &&& s2.subrange(0, searches.len() as int) == searches
        }),
{
    let s2 = handle_step(m, h, e, searches).2;
    assert(s2.subrange(0, searches.len() as int) =~= searches);
}

/// "tv N" or "movie N" in reply to a listing forces the kind of the
/// torrent that the reply picks, whatever its categories say.
pub proof fn lemma_reply_forces_kind(
    m: Incoming,
    searches: Seq<TelegramJackettResponse>,
    reply_text: String,
    n: nat,
    category: Option<Media>,
    magnet: Seq<char>,
)
    requires
        chat_allowed(m.allowed_groups@, m.chat_id),
        m.reply == Some(Some(reply_text)),
        first_word(m) == "tv"@ || first_word(m) == "movie"@,
        position_of(last_word(m)) == Some(n),
        n >= 1,
        reply_choice(n, reply_text@, searches) == Ok::<(Option<Media>, Seq<char>), Seq<char>>(
            (category, magnet),
        ),
    ensures
        begin_step(m, searches).1 == ActionView::AddTorrent(
            magnet,
            if first_word(m) == "tv"@ {
                Media::TV
            } else {
                Media::Movie
            },
        ),
        begin_step(m, searches).0.stage is AfterPick,
{
}

/// `/torrent-tv` and `/torrent-movie` with a link hand the link to
/// Transmission, and answer "Added torrent" once it is added.
pub proof fn lemma_torrent_command_adds(m: Incoming, searches: Seq<TelegramJackettResponse>)
    requires
        chat_allowed(m.allowed_groups@, m.chat_id),
        m.reply is None,
        imdb_link(m) is None,
        first_word(m) == "/torrent-tv"@ || first_word(m) == "/torrent-movie"@,
        m.text.len() >= 2,
    ensures
        ({
            let (h2, a) = begin_step(m, searches);
            let media = if first_word(m) == "/torrent-tv"@ {
                Media::TV
            } else {
                Media::Movie
            };
            &&& a == ActionView::AddTorrent(m.text@[1]@, media)
            &&& handle_step(m, h2, EventView::Finished(Ok(())), searches).1 == ActionView::Reply(
                added_text(),
            )
        }),
{
    reveal_strlit("\u{1f9f2} Added torrent");
}

/// The number printed on a line of a listing reads back as that position.
pub proof fn lemma_printed_position_reads_back(n: nat)
    requires
        n <= u16::MAX,
    ensures
        position_of(decimal(n)) == Some(n),
{
    lemma_decimal_reads_back(n);
    assert(crate::text::is_digit(decimal(n)[0]));
}

/// After `/search`, replying to the listing the bot sent with the number
/// printed on one of its lines adds that line's torrent, of the kind its
/// categories give.
pub proof fn lemma_search_then_reply_adds_listed_torrent(
    searches: Seq<TelegramJackettResponse>,
    found: TelegramJackettResponse,
    reply: Incoming,
    reply_text: String,
    n: nat,
    media: Media,
)
    requires
        forall|j: int| 0 <= j < searches.len() ==> !quotes_listing(reply_text@, #[trigger] searches[j]),
        chat_allowed(reply.allowed_groups@, reply.chat_id),
        reply.reply == Some(Some(reply_text)),
        without_white_space(reply_text@) == without_white_space(torrent_listing(found.torrents@)),
        first_word(reply) == decimal(n),
        1 <= n <= found.torrents.len(),
        n <= u16::MAX,
        torrent_media(found.torrents@[n - 1]) == Some(media),
    ensures
        found_searches(searches, Ok(found)) == searches.push(found),
        begin_step(reply, searches.push(found)).1 == ActionView::AddTorrent(
            found.torrents@[n - 1].magnet_uri@,
            media,
        ),
{
    let all = searches.push(found);
    assert forall|j: int| 0 <= j < searches.len() implies !quotes_listing(
        reply_text@,
        #[trigger] all[j],
    ) by {
        assert(all[j] == searches[j]);
    }
    assert(all[searches.len() as int] == found);
    lemma_reply_picks_listed_torrent(all, searches.len() as int, reply_text@, n);
    lemma_printed_position_reads_back(n);
    reveal_strlit("tv");
    reveal_strlit("movie");
    if first_word(reply) == "tv"@ {
        assert(!all_digits("tv"@));
    }
    if first_word(reply) == "movie"@ {
        assert(!all_digits("movie"@));
    }
}

} // verus!

verus! {

/// A chat on `TELEGRAM_ALLOWED_GROUPS` may use the bot wherever it stands on
/// the list; with no list every chat may; with a list, a chat not on it may not.
pub proof fn lemma_allowed_means_listed(groups: Seq<i64>, chat_id: i64)
    ensures
        groups.contains(chat_id) ==> chat_allowed(groups, chat_id),
        groups.len() == 0 ==> chat_allowed(groups, chat_id),
        groups.len() > 0 && !groups.contains(chat_id) ==> !chat_allowed(groups, chat_id),
{
}

/// `/help` from a chat on the allowed list is answered with the help text.
pub proof fn lemma_listed_chat_gets_help(
    m: Incoming,
    h: HandlingView,
    searches: Seq<TelegramJackettResponse>,
)
    requires
        h.stage is Start,
        m.allowed_groups@.contains(m.chat_id),
        m.reply is None,
        m.text.len() == 1,
        first_word(m) == "/help"@,
    ensures
        handle_step(m, h, EventView::Begin, searches).1 == ActionView::Reply(help_text()),
        handle_step(m, h, EventView::Begin, searches).2 == searches,
{
    reveal_strlit("/help");
    reveal_strlit("/imdb");
    reveal_strlit("/sync");
    reveal_strlit("/chat-id");
    reveal_strlit("/torrent-tv");
    reveal_strlit("/torrent-movie");
    reveal_strlit("https://www.imdb.com");
    reveal_strlit(
        "\n/torrent-tv (Magnet Link)\n/torrent-movie (Magnet Link)\n/search (Movie or TV Show e.g. The Matrix or Simpsons s01e01)\n/imdb (Imdb link). Requires omdb token set https://www.omdbapi.com/\n\nReply the magnet links with:\nPosition of the torrent\nIf jackett doesn't provide a category, it's possible to force with:\ntv (position)\nmovie (position)\n",
    );
    assert(last_word(m) == first_word(m));
    assert(first_word(m)[1] != "/imdb"@[1]);
    assert(first_word(m)[1] != "/sync"@[1]);
    assert(imdb_link(m) is None);
    assert(help_text().len() > 0);
}

/// When an IMDB link's search comes back, a message whose first word is no
/// command is answered with that search's listing, and the search is kept.
pub proof fn lemma_imdb_search_is_answered_with_its_listing(
    m: Incoming,
    h: HandlingView,
    found: TelegramJackettResponse,
    searches: Seq<TelegramJackettResponse>,
)
    requires
        h.stage is AfterImdb,
        first_word(m) != "/torrent-tv"@,
        first_word(m) != "/torrent-movie"@,
        first_word(m) != "/sync"@,
        first_word(m) != "/help"@,
        first_word(m) != "/search"@,
    ensures
        ({
            let listing = "<pre>"@ + torrent_listing(found.torrents@) + "</pre>"@;
            let (h2, a, s2) = handle_step(m, h, EventView::Found(Ok(found)), searches);
            &&& a == ActionView::Reply(listing)
            &&& h2.stage is Done
            &&& h2.result == Ok::<Seq<char>, Seq<char>>(listing)
            &&& s2 == searches.push(found)
        }),
{
    reveal_strlit("<pre>");
    assert(("<pre>"@ + torrent_listing(found.torrents@) + "</pre>"@).len() > 0);
}

} // verus!
