//! The user-visible message templates, verbatim, and the helpers that pick
//! how a user is addressed.

use vstd::prelude::*;
use vstd::string::StringExecFns;

verus! {

/// The prompt body that asks for a photo, addressed to `who`.
pub open spec fn prompt_core_spec(who: Seq<char>) -> Seq<char> {
    "Hey, "@ + who
        + "! Please reply within 3 minutes to this message with an image to see the Degen Point of View!"@
}

/// The full prompt: on a replacement it is prefixed with a cancellation note.
pub open spec fn prompt_text_spec(who: Seq<char>, replaced: bool) -> Seq<char> {
    if replaced {
        "Previous request cancelled. "@ + prompt_core_spec(who)
    } else {
        prompt_core_spec(who)
    }
}

/// The "processing" progress message for `who`.
pub open spec fn processing_text_spec(who: Seq<char>) -> Seq<char> {
    "Making "@ + who + " a degen... Please wait..."@
}

/// The caption attached to the composed photo for `who`.
pub open spec fn caption_text_spec(who: Seq<char>) -> Seq<char> {
    "Here you go "@ + who + ", you degen."@
}

/// The notice the sweeper sends when `who`'s request has expired.
pub open spec fn sweeper_expired_text_spec(who: Seq<char>) -> Seq<char> {
    who + ", you degen, you forgot to send me a picture! Please run /degenme again to send an image."@
}

/// The download URL for an attached file, built from the bot token and the
/// platform's file path.
pub open spec fn file_url_spec(token: Seq<char>, path: Seq<char>) -> Seq<char> {
    "https://api.telegram.org/file/bot"@ + token + "/"@ + path
}

/// The prompt sent after the overlay command, addressed to `who`, with the
/// cancellation preamble when a prior request is being replaced.
pub fn prompt_text(who: &str, replaced: bool) -> (r: String)
    ensures
        r@ == prompt_text_spec(who@, replaced),
{
    let mut s = String::new();
    if replaced {
        s.append("Previous request cancelled. ");
    }
    s.append("Hey, ");
    s.append(who);
    s.append("! Please reply within 3 minutes to this message with an image to see the Degen Point of View!");
    proof {
        assert(s@ =~= prompt_text_spec(who@, replaced));
    }
    s
}

/// The notice sent when the rate limiter rejects a command.
pub fn rate_limited_text() -> (r: String)
    ensures
        r@ == "You're sending commands too quickly. Please wait a moment before trying again."@,
{
    String::from_str("You're sending commands too quickly. Please wait a moment before trying again.")
}

/// The progress message sent while a photo is being composed.
pub fn processing_text(who: &str) -> (r: String)
    ensures
        r@ == processing_text_spec(who@),
{
    let mut s = String::from_str("Making ");
    s.append(who);
    s.append(" a degen... Please wait...");
    proof {
        assert(s@ =~= processing_text_spec(who@));
    }
    s
}

/// The caption on the delivered photo.
pub fn caption_text(who: &str) -> (r: String)
    ensures
        r@ == caption_text_spec(who@),
{
    let mut s = String::from_str("Here you go ");
    s.append(who);
    s.append(", you degen.");
    proof {
        assert(s@ =~= caption_text_spec(who@));
    }
    s
}

/// The notice sent when a photo arrives after the request expired.
pub fn expired_photo_text() -> (r: String)
    ensures
        r@ == "Your overlay request has expired. Please use the /degenme command again."@,
{
    String::from_str("Your overlay request has expired. Please use the /degenme command again.")
}

/// The notice the sweeper sends when it evicts an expired request.
pub fn sweeper_expired_text(who: &str) -> (r: String)
    ensures
        r@ == sweeper_expired_text_spec(who@),
{
    let mut s = String::from_str(who);
    s.append(", you degen, you forgot to send me a picture! Please run /degenme again to send an image.");
    proof {
        assert(s@ =~= sweeper_expired_text_spec(who@));
    }
    s
}

/// The fixed reply to the start command.
pub fn welcome_text() -> (r: String)
    ensures
        r@ == "Welcome to the Degen POV bot! Use /degenme to create an overlay in any channel, group, or DM I am in!"@,
{
    String::from_str("Welcome to the Degen POV bot! Use /degenme to create an overlay in any channel, group, or DM I am in!")
}

/// The reminder sent when a matching reply carries no photo.
pub fn no_photo_text() -> (r: String)
    ensures
        r@ == "Please reply with an image to degen."@,
{
    String::from_str("Please reply with an image to degen.")
}

/// How the prompt addresses the user: their handle, or "there" when the
/// platform gave none.
pub fn mention_or_there(username: Option<&str>) -> (r: String)
    ensures
        match username {
            Some(u) => r@ == "@"@ + u@,
            None => r@ == "there"@,
        },
{
    match username {
        Some(u) => {
            let mut s = String::from_str("@");
            s.append(u);
            s
        },
        None => String::from_str("there"),
    }
}

/// How the progress message and caption address the user: their handle, or
/// "Anonymous" when the platform gave none.
pub fn mention_or_anonymous(username: Option<&str>) -> (r: String)
    ensures
        match username {
            Some(u) => r@ == "@"@ + u@,
            None => r@ == "Anonymous"@,
        },
{
    match username {
        Some(u) => {
            let mut s = String::from_str("@");
            s.append(u);
            s
        },
        None => String::from_str("Anonymous"),
    }
}

/// How the sweeper's notice addresses the user: their bare name, or "Degen"
/// when the platform gave none.
pub fn name_or_degen(username: Option<&str>) -> (r: String)
    ensures
        match username {
            Some(u) => r@ == u@,
            None => r@ == "Degen"@,
        },
{
    match username {
        Some(u) => String::from_str(u),
        None => String::from_str("Degen"),
    }
}

/// The token-scoped URL a file is downloaded from.
pub fn file_url(token: &str, path: &str) -> (r: String)
    ensures
        r@ == file_url_spec(token@, path@),
{
    let mut s = String::from_str("https://api.telegram.org/file/bot");
    s.append(token);
    s.append("/");
    s.append(path);
    proof {
        assert(s@ =~= file_url_spec(token@, path@));
    }
    s
}

/// The HTML page served at the root route: a meta refresh that redirects
/// the browser to the marketing site.
pub fn index_page() -> (r: String)
    ensures
        r@ == "<!DOCTYPE html>\n<html lang=\"en\">\n<head>\n    <meta charset=\"UTF-8\">\n    <meta http-equiv=\"refresh\" content=\"0; URL=https://degenstudios.media\">\n    <title>Redirecting...</title>\n</head>\n<body>\n    <p>If you are not redirected, <a href=\"https://degenstudios.media\">click here</a>.</p>\n</body>\n</html>"@,
{
    String::from_str("<!DOCTYPE html>\n<html lang=\"en\">\n<head>\n    <meta charset=\"UTF-8\">\n    <meta http-equiv=\"refresh\" content=\"0; URL=https://degenstudios.media\">\n    <title>Redirecting...</title>\n</head>\n<body>\n    <p>If you are not redirected, <a href=\"https://degenstudios.media\">click here</a>.</p>\n</body>\n</html>")
}

} // verus!
