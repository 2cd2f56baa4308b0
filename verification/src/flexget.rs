//! The FlexGet command lines that the bot runs, and how it reads their outcome.

use vstd::prelude::*;
use vstd::utf8::{decode_utf8, valid_utf8};
use crate::formats::utf8_text;

verus! {

/// The kind of download, which decides the FlexGet task.
pub enum Media {
    TV,
    Movie,
}

/// The FlexGet working directory, from the value of `FLEXGET_PATH`.
pub fn flexget_path(configured: Option<String>) -> (r: Result<String, String>)
    ensures
        match configured {
            Some(path) => r == Ok::<String, String>(path),
            None => r matches Err(e) && e@ == "FLEXGET_PATH not configured"@,
        },
{
    match configured {
        Some(path) => Ok(path),
        None => Err(String::from_str("FLEXGET_PATH not configured")),
    }
}

/// The shell line that runs `flexget execute` with the given arguments.
pub open spec fn flexget_line(arguments: Seq<char>) -> Seq<char> {
    "flexget execute "@ + arguments
}

/// The FlexGet task that downloads a kind of media by hand.
pub open spec fn manual_task(media: Media) -> Seq<char> {
    match media {
        Media::TV => "download-tv-manual"@,
        Media::Movie => "download-movie-manual"@,
    }
}

/// The shell line for a FlexGet run with the given arguments.
pub fn flexget_command(arguments: String) -> (r: String)
    ensures
        r@ == flexget_line(arguments@),
{
    let mut line = String::from_str("flexget execute ");
    line.append(arguments.as_str());
    line
}

/// The shell line that hands a magnet link to the manual FlexGet task for
/// its kind of media; the caller runs it with `sh -c` in `flexget_path`.
pub fn execute_magnet_url(magnet_url: String, media: Media) -> (r: String)
    ensures
        r@ == flexget_line(
            "--task "@ + manual_task(media) + " --cli-config 'magnet="@ + magnet_url@ + "'"@,
        ),
{
    let mut arguments = String::from_str("--task ");
    match media {
        Media::TV => arguments.append("download-tv-manual"),
        Media::Movie => arguments.append("download-movie-manual"),
    }
    arguments.append(" --cli-config 'magnet=");
    arguments.append(magnet_url.as_str());
    arguments.append("'");
    flexget_command(arguments)
}

/// The shell line that makes FlexGet run every task now, ignoring its cache.
pub fn sync_flexget() -> (r: String)
    ensures
        r@ == flexget_line("--no-cache --discover-now"@),
{
    flexget_command(String::from_str("--no-cache --discover-now"))
}

/// How a FlexGet run ended.
pub enum CommandOutcome {
    /// The process ran; whether it exited with success, and what it wrote on stderr.
    Finished { success: bool, stderr: Vec<u8> },
    /// The process could not be started; the error's message.
    NotStarted(String),
}

/// The result of a FlexGet run: nothing on success, else what went wrong.
pub fn flexget_outcome(outcome: CommandOutcome) -> (r: Result<(), String>)
    ensures
        match outcome {
            CommandOutcome::Finished { success, stderr } => if success {
                r is Ok
            } else if valid_utf8(stderr@) {
                r matches Err(e) && e@ == decode_utf8(stderr@)
            } else {
                r matches Err(e) && e@ == "Error when converting stderr\nCheck logs"@
            },
            CommandOutcome::NotStarted(message) => r == Err::<(), String>(message),
        },
{
    match outcome {
        CommandOutcome::Finished { success, stderr } => {
            if success {
                Ok(())
            } else {
                match utf8_text(stderr) {
                    Some(text) => Err(text),
                    None => Err(String::from_str("Error when converting stderr\nCheck logs")),
                }
            }
        },
        CommandOutcome::NotStarted(message) => Err(message),
    }
}

} // verus!
