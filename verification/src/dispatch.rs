//! The command dispatcher: decides what an inbound message asks for.
//!
//! A text beginning with a slash carries a command token: the characters
//! after the slash up to the first `@` (a bot mention) or space. Only the
//! start and overlay commands are known; any other slash token is ignored
//! on purpose, so the bot stays silent on commands meant for other bots in
//! the same chat. A message without text but with a photo is queued.

use vstd::prelude::*;
use vstd::string::StrSliceExecFns;

verus! {

/// True when `c` ends the command token.
pub open spec fn is_token_end(c: char) -> bool {
    c == '@' || c == ' '
}

/// The index of the first token-ending character at or after `from`, or the
/// text's length when there is none.
pub open spec fn token_end_from(s: Seq<char>, from: int) -> int
    recommends
        0 <= from <= s.len(),
    decreases s.len() - from when 0 <= from <= s.len()
{
    if from >= s.len() {
        s.len() as int
    } else if is_token_end(s[from]) {
        from
    } else {
        token_end_from(s, from + 1)
    }
}

/// True when the text begins with the slash that marks a command.
pub open spec fn is_command(s: Seq<char>) -> bool {
    s.len() >= 1 && s[0] == '/'
}

/// The command token: the characters after the slash, up to the first `@`
/// or space.
pub open spec fn command_of(s: Seq<char>) -> Seq<char>
    recommends
        is_command(s),
{
    s.subrange(1, token_end_from(s, 1))
}

/// What a message's text asks for.
#[derive(Clone, Copy, PartialEq, Eq, Structural, Debug)]
pub enum TextClass {
    /// The start command: reply with the welcome text.
    Start,
    /// The overlay command: run the session handler.
    Degenme,
    /// A slash token addressed to some other bot: stay silent.
    OtherCommand,
    /// Ordinary text, no command at all.
    NotCommand,
}

/// The class that `classify_text` must return for text `s`.
pub open spec fn spec_classify(s: Seq<char>) -> TextClass {
    if !is_command(s) {
        TextClass::NotCommand
    } else if command_of(s) == "start"@ {
        TextClass::Start
    } else if command_of(s) == "degenme"@ {
        TextClass::Degenme
    } else {
        TextClass::OtherCommand
    }
}

/// What the dispatcher does with one inbound message.
#[derive(Clone, Copy, PartialEq, Eq, Structural, Debug)]
pub enum MessageAction {
    /// Send the fixed welcome text.
    ReplyWelcome,
    /// Run the overlay session handler.
    HandleDegenme,
    /// Put the photo message on the work queue.
    EnqueuePhoto,
    /// Do nothing.
    Ignore,
}

/// `token_end_from` is pinned down by what the scan saw: no ender before
/// `e`, and an ender (or the end of the text) at `e`.
proof fn lemma_token_end_at(s: Seq<char>, from: int, e: int)
    requires
        0 <= from <= e <= s.len(),
        forall|j: int| from <= j < e ==> !is_token_end(s[j]),
        e == s.len() || is_token_end(s[e]),
    ensures
        token_end_from(s, from) == e,
    decreases e - from,
{
    if from < e {
        lemma_token_end_at(s, from + 1, e);
    }
}

/// True iff the characters of `text` from `from` (inclusive) to `to`
/// (exclusive) spell exactly `word`.
fn span_eq(text: &str, from: usize, to: usize, word: &str) -> (r: bool)
    requires
        from <= to <= text@.len(),
    ensures
        r == (text@.subrange(from as int, to as int) == word@),
{
    let wl = word.unicode_len();
    if to - from != wl {
        proof {
            assert(text@.subrange(from as int, to as int).len() == to - from);
        }
        return false;
    }
    let mut k: usize = 0;
    while k < wl
        invariant
            0 <= k <= wl,
            wl == word@.len(),
            from + wl == to,
            from <= to <= text@.len(),
            forall|j: int| 0 <= j < k ==> text@[from + j] == word@[j],
        decreases wl - k,
    {
        if text.get_char(from + k) != word.get_char(k) {
            proof {
                assert(text@.subrange(from as int, to as int)[k as int] == text@[from + k as int]);
            }
            return false;
        }
        k = k + 1;
    }
    proof {
        assert(text@.subrange(from as int, to as int) =~= word@);
    }
    true
}

/// Classifies a message text: the start command, the overlay command, a
/// command meant for some other bot, or no command at all.
pub fn classify_text(text: &str) -> (r: TextClass)
    ensures
        r == spec_classify(text@),
{
    let n = text.unicode_len();
    if n == 0 {
        return TextClass::NotCommand;
    }
    if text.get_char(0) != '/' {
        return TextClass::NotCommand;
    }
    let mut i: usize = 1;
    while i < n
        invariant
            1 <= i <= n,
            n == text@.len(),
            forall|j: int| 1 <= j < i ==> !is_token_end(text@[j]),
        ensures
            1 <= i <= n,
            n == text@.len(),
            forall|j: int| 1 <= j < i ==> !is_token_end(text@[j]),
            i == n || is_token_end(text@[i as int]),
        decreases n - i,
    {
        let ch = text.get_char(i);
        if ch == '@' || ch == ' ' {
            break;
        }
        i = i + 1;
    }
    proof {
        lemma_token_end_at(text@, 1, i as int);
    }
    if span_eq(text, 1, i, "start") {
        TextClass::Start
    } else if span_eq(text, 1, i, "degenme") {
        TextClass::Degenme
    } else {
        TextClass::OtherCommand
    }
}

/// Routes one inbound message: a known command is handled, an unknown slash
/// token is ignored, a photo without text is queued, and anything else is
/// dropped.
pub fn classify_message(text: Option<&str>, has_photo: bool) -> (r: MessageAction)
    ensures
        match text {
            Some(t) => r == (match spec_classify(t@) {
                TextClass::Start => MessageAction::ReplyWelcome,
                TextClass::Degenme => MessageAction::HandleDegenme,
                TextClass::OtherCommand => MessageAction::Ignore,
                TextClass::NotCommand => MessageAction::Ignore,
            }),
            None => r == (if has_photo {
                MessageAction::EnqueuePhoto
            } else {
                MessageAction::Ignore
            }),
        },
{
    match text {
        Some(t) => {
            match classify_text(t) {
                TextClass::Start => MessageAction::ReplyWelcome,
                TextClass::Degenme => MessageAction::HandleDegenme,
                TextClass::OtherCommand => MessageAction::Ignore,
                TextClass::NotCommand => MessageAction::Ignore,
            }
        },
        None => {
            if has_photo {
                MessageAction::EnqueuePhoto
            } else {
                MessageAction::Ignore
            }
        },
    }
}

} // verus!
