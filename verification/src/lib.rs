//! Decision logic of a Telegram bot that searches Jackett, reads OMDB and
//! hands magnet links to Transmission or FlexGet.

pub mod text;
pub mod formats;
pub mod transmission;
pub mod flexget;
pub mod imdb;
pub mod jackett;
pub mod telegram;
