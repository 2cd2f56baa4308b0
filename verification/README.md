# torrent_bot

A Telegram bot that searches Jackett, reads titles from OMDB, and hands
magnet links to Transmission or FlexGet. The decisions are a verified Verus
library; the program around it does the network, process and environment work.

- `src/text.rs`: decimal text, integer parsing as `str::parse` does it,
  white space, splitting and joining.
- `src/formats.rs`: the encodings taken from outside crates and std (base64,
  form-urlencoding, JSON string literals, SI sizes, UTF-8, URIs, status codes,
  JSON members), each behind a trusted item.
- `src/jackett.rs`: the search URL, the ranking and cut of results, the listing
  sent to the chat, and picking a torrent from a reply to that listing.
- `src/imdb.rs`: the IMDB id of a link and the answer built from OMDB's reply.
- `src/transmission.rs`: the RPC request that adds a torrent and the reading
  of the first answer.
- `src/flexget.rs`: the FlexGet command lines and the reading of their outcome.
- `src/telegram.rs`: allowed chats and the handling of a message, as a state
  machine whose actions the program performs.
- `app/main.rs`: the program.
