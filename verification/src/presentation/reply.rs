//! Sending a prompt and following the reply: when a prompt may be sent, the
//! reply's text as its tokens arrive, and what is shown and stored when it ends.
use vstd::prelude::*;

use crate::conversations::{MessageStatus, MessageUpdate};
use crate::presentation::chat_text::{content_with_state, message_content_with_live_state};
use crate::text::{chars_of, is_blank, push_str, string_from_range, to_owned_string, trim, trim_bounds};

verus! {

// ----------------------------------------------------------------------
// Sending.
// ----------------------------------------------------------------------

/// What happens when the send button is pressed.
pub enum SendCheck {
    /// The prompt is blank: nothing happens.
    Blank,
    /// The prompt cannot be sent now; the text says why.
    Refused(String),
    /// The prompt, trimmed, is sent.
    Ready(String),
}

/// Why a prompt cannot be sent now: a reply that is still being written, a
/// model download, a model deletion, or no model picked, in that order.
pub open spec fn send_refusal(generating: bool, pulling: bool, deleting: bool, model_picked: bool) -> Option<
    Seq<char>,
> {
    if generating {
        Some("Generation is already running"@)
    } else if pulling {
        Some("Finish the active model download first"@)
    } else if deleting {
        Some("Finish the active model deletion first"@)
    } else if !model_picked {
        Some("Select an installed model first"@)
    } else {
        None
    }
}

pub fn check_send(prompt: &str, generating: bool, pulling: bool, deleting: bool, model_picked: bool) -> (r:
    SendCheck)
    ensures
        trim(prompt@).len() == 0 ==> r is Blank,
        trim(prompt@).len() > 0 ==> match send_refusal(generating, pulling, deleting, model_picked) {
            Some(m) => r matches SendCheck::Refused(s) && s@ == m,
            None => r matches SendCheck::Ready(p) && p@ == trim(prompt@),
        },
{
    let v = chars_of(prompt);
    let (a, b) = trim_bounds(v.as_slice());
    if a == b {
        return SendCheck::Blank;
    }
    if generating {
        SendCheck::Refused(to_owned_string("Generation is already running"))
    } else if pulling {
        SendCheck::Refused(to_owned_string("Finish the active model download first"))
    } else if deleting {
        SendCheck::Refused(to_owned_string("Finish the active model deletion first"))
    } else if !model_picked {
        SendCheck::Refused(to_owned_string("Select an installed model first"))
    } else {
        SendCheck::Ready(string_from_range(v.as_slice(), a, b))
    }
}

// ----------------------------------------------------------------------
// Following the reply.
// ----------------------------------------------------------------------

/// How a reply ended: the model finished it, the request failed, or it was
/// stopped (by the stop button, or because the stream went away).
#[derive(Clone, Copy, Debug, PartialEq, Eq)]
pub enum ReplyEnd {
    Done,
    Failed,
    Cancelled,
}

/// The text of a reply written so far.
pub struct ReplyProgress {
    content: String,
}

impl View for ReplyProgress {
    type V = Seq<char>;

    closed spec fn view(&self) -> Seq<char> {
        self.content@
    }
}

/// A reply as it ended: what the chat shows for it, and the update that
/// stores it.
pub struct FinishedReply {
    pub shown: String,
    pub update: MessageUpdate,
}

/// The text stored for a reply that ended this way: a finished reply with no
/// text says so, any other reply keeps what was written.
pub open spec fn stored_reply(content: Seq<char>, end: ReplyEnd) -> Seq<char> {
    if end == ReplyEnd::Done && trim(content).len() == 0 {
        "No response generated."@
    } else {
        content
    }
}

/// What the chat shows for a reply that ended this way.
pub open spec fn shown_reply(content: Seq<char>, end: ReplyEnd) -> Seq<char> {
    match end {
        ReplyEnd::Done => stored_reply(content, end),
        ReplyEnd::Failed => content_with_state(content, "Response failed."@),
        ReplyEnd::Cancelled => content_with_state(content, "Response cancelled."@),
    }
}

pub open spec fn end_status(end: ReplyEnd) -> MessageStatus {
    match end {
        ReplyEnd::Done => MessageStatus::Complete,
        ReplyEnd::Failed => MessageStatus::Failed,
        ReplyEnd::Cancelled => MessageStatus::Cancelled,
    }
}

impl ReplyProgress {
    pub fn new() -> (r: ReplyProgress)
        ensures
            r@ == Seq::<char>::empty(),
    {
        ReplyProgress { content: String::new() }
    }

    /// The text written so far.
    pub fn content(&self) -> (r: &str)
        ensures
            r@ == self@,
    {
        self.content.as_str()
    }

    /// A token arrived: it is added to the end, and nothing is lost.
    pub fn push_token(&mut self, token: &str)
        ensures
            final(self)@ == old(self)@ + token@,
    {
        push_str(&mut self.content, token);
    }

    /// The reply ended: what the chat shows, and the update of the stored
    /// message `message_id`.
    pub fn finish(self, message_id: &str, end: ReplyEnd) -> (r: FinishedReply)
        ensures
            r.shown@ == shown_reply(self@, end),
            r.update.id@ == message_id@,
            r.update.content@ == stored_reply(self@, end),
            r.update.status == end_status(end),
            r.update.token_count is None,
    {
        match end {
            ReplyEnd::Done => {
                let stored = if is_blank(self.content.as_str()) {
                    to_owned_string("No response generated.")
                } else {
                    self.content
                };
                let shown = to_owned_string(stored.as_str());
                FinishedReply { shown, update: MessageUpdate::completed(message_id, stored.as_str()) }
            },
            ReplyEnd::Failed => {
                let shown = message_content_with_live_state(self.content.as_str(), "Response failed.");
                FinishedReply { shown, update: MessageUpdate::failed(message_id, self.content.as_str()) }
            },
            ReplyEnd::Cancelled => {
                let shown = message_content_with_live_state(self.content.as_str(), "Response cancelled.");
                FinishedReply { shown, update: MessageUpdate::cancelled(message_id, self.content.as_str()) }
            },
        }
    }
}

} // verus!
