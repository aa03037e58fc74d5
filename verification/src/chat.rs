//! Chat messages sent to a model, and the context built from a conversation.
use vstd::prelude::*;

use crate::conversations::{Message, MessageRole, MessageStatus};
use crate::text::{chars_of, is_blank, string_from_range, to_owned_string, trim, trim_bounds};

verus! {

#[derive(Clone, Copy, Debug, PartialEq, Eq, Structural)]
pub enum ChatRole {
    System,
    User,
    Assistant,
    Tool,
}

#[derive(Clone, Debug, PartialEq, Eq)]
pub struct ChatMessage {
    pub role: ChatRole,
    pub content: String,
}

/// One event of a streamed chat answer.
#[derive(Clone, Debug, PartialEq, Eq)]
pub enum ChatStreamEvent {
    Token(String),
    Done,
}

/// A chat message as a role and its characters.
pub struct ChatMessageView {
    pub role: ChatRole,
    pub content: Seq<char>,
}

impl View for ChatMessage {
    type V = ChatMessageView;

    open spec fn view(&self) -> ChatMessageView {
        ChatMessageView { role: self.role, content: self.content@ }
    }
}

pub open spec fn chat_view(role: ChatRole, content: Seq<char>) -> ChatMessageView {
    ChatMessageView { role, content }
}

impl ChatMessage {
    pub fn system(content: &str) -> (r: ChatMessage)
        ensures
            r@ == chat_view(ChatRole::System, content@),
    {
        ChatMessage { role: ChatRole::System, content: to_owned_string(content) }
    }

    pub fn user(content: &str) -> (r: ChatMessage)
        ensures
            r@ == chat_view(ChatRole::User, content@),
    {
        ChatMessage { role: ChatRole::User, content: to_owned_string(content) }
    }

    pub fn assistant(content: &str) -> (r: ChatMessage)
        ensures
            r@ == chat_view(ChatRole::Assistant, content@),
    {
        ChatMessage { role: ChatRole::Assistant, content: to_owned_string(content) }
    }
}

/// What a stored message contributes to a model's context: nothing when it is
/// blank, still streaming, or from the system or a tool.
pub open spec fn context_entry(m: Message) -> Option<ChatMessageView> {
    if trim(m.content@).len() == 0 || m.status == MessageStatus::Streaming {
        None
    } else {
        match m.role {
            MessageRole::User => Some(chat_view(ChatRole::User, m.content@)),
            MessageRole::Assistant => Some(chat_view(ChatRole::Assistant, m.content@)),
            _ => None,
        }
    }
}

/// The context entries of a history, in order.
pub open spec fn context_entries(history: Seq<Message>) -> Seq<ChatMessageView>
    decreases history.len(),
{
    if history.len() == 0 {
        Seq::empty()
    } else {
        context_entries(history.drop_last()) + match context_entry(history.last()) {
            Some(c) => seq![c],
            None => Seq::empty(),
        }
    }
}

/// The last `n` entries (all of them when there are fewer).
pub open spec fn last_n(s: Seq<ChatMessageView>, n: int) -> Seq<ChatMessageView> {
    if s.len() > n {
        s.subrange(s.len() - n, s.len() as int)
    } else {
        s
    }
}

/// The system message, when a non-blank system prompt is given.
pub open spec fn system_part(system_prompt: Option<Seq<char>>) -> Seq<ChatMessageView> {
    match system_prompt {
        Some(p) => if trim(p).len() > 0 {
            seq![chat_view(ChatRole::System, trim(p))]
        } else {
            Seq::empty()
        },
        None => Seq::empty(),
    }
}

/// The messages sent for a prompt: the optional system prompt, then the most
/// recent eligible messages of the history (at most `max(limit, 1) - 1` of them),
/// then the prompt itself.
pub open spec fn conversation_context(
    history: Seq<Message>,
    current_prompt: Seq<char>,
    context_limit: nat,
    system_prompt: Option<Seq<char>>,
) -> Seq<ChatMessageView> {
    let limit = if context_limit < 1 { 1 } else { context_limit };
    system_part(system_prompt) + last_n(context_entries(history), limit - 1) + seq![
        chat_view(ChatRole::User, current_prompt),
    ]
}

pub open spec fn opt_str_view(o: Option<&str>) -> Option<Seq<char>> {
    match o {
        Some(s) => Some(s@),
        None => None,
    }
}

pub open spec fn views(v: Seq<ChatMessage>) -> Seq<ChatMessageView> {
    v.map_values(|m: ChatMessage| m@)
}

/// What a stored message contributes to a model's context.
pub fn chat_message_from_stored_message(message: &Message) -> (r: Option<ChatMessage>)
    ensures
        match r {
            Some(c) => context_entry(*message) == Some(c@),
            None => context_entry(*message) is None,
        },
{
    if is_blank(message.content.as_str()) || matches!(message.status, MessageStatus::Streaming) {
        return None;
    }
    match message.role {
        MessageRole::User => Some(ChatMessage::user(message.content.as_str())),
        MessageRole::Assistant => Some(ChatMessage::assistant(message.content.as_str())),
        MessageRole::System | MessageRole::Tool => None,
    }
}

/// The messages to send for `current_prompt` in a conversation with `history`.
pub fn build_conversation_context(
    history: &[Message],
    current_prompt: &str,
    context_limit: usize,
    system_prompt: Option<&str>,
) -> (r: Vec<ChatMessage>)
    ensures
        views(r@) == conversation_context(
            history@,
            current_prompt@,
            context_limit as nat,
            opt_str_view(system_prompt),
        ),
{
    let limit: usize = if context_limit < 1 { 1 } else { context_limit };
    let historical_limit = limit - 1;

    let mut historical: Vec<ChatMessage> = Vec::new();
    let mut i: usize = 0;
    while i < history.len()
        invariant
            i <= history.len(),
            views(historical@) == context_entries(history@.subrange(0, i as int)),
        decreases history.len() - i,
    {
        let ghost before = historical@;
        let entry = chat_message_from_stored_message(&history[i]);
        assert(history@.subrange(0, i + 1).drop_last() =~= history@.subrange(0, i as int));
        match entry {
            Some(message) => {
                historical.push(message);
                assert(views(historical@) =~= views(before) + seq![message@]);
            },
            None => {},
        }
        i = i + 1;
    }
    assert(history@.subrange(0, history.len() as int) =~= history@);

    let ghost entries = context_entries(history@);
    let start: usize = if historical.len() > historical_limit {
        historical.len() - historical_limit
    } else {
        0
    };

    let mut messages: Vec<ChatMessage> = Vec::new();
    match system_prompt {
        Some(prompt) => {
            let v = chars_of(prompt);
            let (a, b) = trim_bounds(v.as_slice());
            if a < b {
                let trimmed = string_from_range(v.as_slice(), a, b);
                messages.push(ChatMessage { role: ChatRole::System, content: trimmed });
            }
        },
        None => {},
    }
    let ghost prefix = views(messages@);
    assert(prefix =~= system_part(opt_str_view(system_prompt)));

    let mut j: usize = start;
    while j < historical.len()
        invariant
            start <= j <= historical.len(),
            views(historical@) == entries,
            views(messages@) == prefix + entries.subrange(start as int, j as int),
        decreases historical.len() - j,
    {
        let ghost before = messages@;
        let message = ChatMessage { role: historical[j].role, content: historical[j].content.clone() };
        assert(views(historical@)[j as int] == historical@[j as int]@);
        assert(message@ == entries[j as int]);
        messages.push(message);
        assert(views(messages@) =~= views(before).push(message@));
        assert(entries.subrange(start as int, j + 1) =~= entries.subrange(start as int, j as int).push(entries[j as int]));
        j = j + 1;
        assert(views(messages@) =~= prefix + entries.subrange(start as int, j as int));
    }
    assert(entries.subrange(start as int, entries.len() as int) =~= last_n(
        entries,
        historical_limit as int,
    ));
    let ghost before_prompt = messages@;
    messages.push(ChatMessage::user(current_prompt));
    assert(views(messages@) =~= views(before_prompt) + seq![chat_view(ChatRole::User, current_prompt@)]);
    messages
}


/// The context for a prompt is the system message (when a non-blank system
/// prompt is given), then the `n` most recent eligible messages of the history,
/// in their order, then the prompt as a user message, where `n` is the number of
/// eligible messages but at most `max(context_limit, 1) - 1`: no more history
/// than the limit allows, and no older message kept in place of a newer one.
pub proof fn context_keeps_most_recent(
    history: Seq<Message>,
    current_prompt: Seq<char>,
    context_limit: nat,
    system_prompt: Option<Seq<char>>,
)
    ensures
        ({
            let r = conversation_context(history, current_prompt, context_limit, system_prompt);
            let sys = system_part(system_prompt);
            let e = context_entries(history);
            let keep: int = if context_limit <= 1 { 0 } else { context_limit - 1 };
            let n: int = if e.len() < keep { e.len() as int } else { keep };
            &&& sys.len() <= 1
            &&& r.len() == sys.len() + n + 1
            &&& r.len() <= (if context_limit < 1 { 1 } else { context_limit as int }) + 1
            &&& r.subrange(0, sys.len() as int) == sys
            &&& r.subrange(sys.len() as int, sys.len() + n) == e.subrange(e.len() - n, e.len() as int)
            &&& r.last() == chat_view(ChatRole::User, current_prompt)
        }),
{
    let r = conversation_context(history, current_prompt, context_limit, system_prompt);
    let sys = system_part(system_prompt);
    let e = context_entries(history);
    let keep: int = if context_limit <= 1 { 0 } else { context_limit - 1 };
    let n: int = if e.len() < keep { e.len() as int } else { keep };
    let h = last_n(e, keep);
    assert(h.len() == n);
    assert(h =~= e.subrange(e.len() - n, e.len() as int));
    assert(r =~= sys + h + seq![chat_view(ChatRole::User, current_prompt)]);
    assert(r.subrange(0, sys.len() as int) =~= sys);
    assert(r.subrange(sys.len() as int, sys.len() + n) =~= h);
}

} // verus!
