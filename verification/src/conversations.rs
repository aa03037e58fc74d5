//! Conversations, their messages, and the rules their text follows.
use vstd::prelude::*;

use crate::error::{MooseError, Result};
use crate::ids::{new_id, utc_now};
use crate::text::{
    any_ctrl, any_invalid_text_char, chars_of, has_ctrl, has_invalid_text_char, is_blank, str_eq,
    string_from_range, to_owned_string, trim, trim_bounds, utf8_len, utf8_len_at_most,
};

verus! {

pub const MAX_CONVERSATION_TITLE_BYTES: usize = 160;

#[derive(Clone, Debug, PartialEq, Eq)]
pub struct Conversation {
    pub id: String,
    pub provider_id: String,
    pub model_id: Option<String>,
    pub title: String,
    pub created_at: String,
    pub updated_at: String,
    pub archived_at: Option<String>,
}

#[derive(Clone, Debug, PartialEq, Eq)]
pub struct NewConversation {
    pub provider_id: String,
    pub model_id: Option<String>,
    pub title: String,
}

#[derive(Clone, Debug, PartialEq, Eq)]
pub struct ConversationTitleUpdate {
    pub id: String,
    pub title: String,
}

#[derive(Clone, Copy, Debug, PartialEq, Eq, Structural)]
pub enum MessageRole {
    System,
    User,
    Assistant,
    Tool,
}

#[derive(Clone, Copy, Debug, PartialEq, Eq, Structural)]
pub enum MessageStatus {
    Streaming,
    Complete,
    Cancelled,
    Failed,
}

#[derive(Clone, Debug, PartialEq, Eq)]
pub struct Message {
    pub id: String,
    pub conversation_id: String,
    pub role: MessageRole,
    pub content: String,
    pub status: MessageStatus,
    pub token_count: Option<i64>,
    pub created_at: String,
    pub completed_at: Option<String>,
}

#[derive(Clone, Debug, PartialEq, Eq)]
pub struct NewMessage {
    pub conversation_id: String,
    pub role: MessageRole,
    pub content: String,
    pub status: MessageStatus,
}

#[derive(Clone, Debug, PartialEq, Eq)]
pub struct MessageUpdate {
    pub id: String,
    pub content: String,
    pub status: MessageStatus,
    pub token_count: Option<i64>,
}

// ----------------------------------------------------------------------
// Specifications.
// ----------------------------------------------------------------------

/// An identifier is the trimmed text: non-empty and without control characters.
pub open spec fn required_id_ok(s: Seq<char>) -> bool {
    trim(s).len() > 0 && !has_ctrl(trim(s))
}

pub open spec fn optional_id_ok(s: Option<String>) -> bool {
    match s {
        Some(v) => required_id_ok(v@),
        None => true,
    }
}

/// A title is the trimmed text: non-empty, at most 160 bytes, and free of
/// control characters other than newline, carriage return and tab.
pub open spec fn title_ok(s: Seq<char>) -> bool {
    let t = trim(s);
    t.len() > 0 && utf8_len(t) <= 160 && !has_invalid_text_char(t)
}

/// Message content is kept as given: it must be free of control characters
/// other than newline, carriage return and tab, and it must hold text unless
/// the message is still streaming or failed before any text arrived.
pub open spec fn content_ok(s: Seq<char>, status: MessageStatus) -> bool {
    !has_invalid_text_char(s) && (trim(s).len() > 0 || status == MessageStatus::Streaming || status
        == MessageStatus::Failed)
}

impl MessageRole {
    pub open spec fn text(self) -> Seq<char> {
        match self {
            MessageRole::System => "system"@,
            MessageRole::User => "user"@,
            MessageRole::Assistant => "assistant"@,
            MessageRole::Tool => "tool"@,
        }
    }

    /// The role whose storage value is the text, if any.
    pub open spec fn from_text(s: Seq<char>) -> Option<MessageRole> {
        if s == "system"@ {
            Some(MessageRole::System)
        } else if s == "user"@ {
            Some(MessageRole::User)
        } else if s == "assistant"@ {
            Some(MessageRole::Assistant)
        } else if s == "tool"@ {
            Some(MessageRole::Tool)
        } else {
            None
        }
    }

    pub fn as_str(&self) -> (r: &'static str)
        ensures
            r@ == self.text(),
    {
        match self {
            MessageRole::System => "system",
            MessageRole::User => "user",
            MessageRole::Assistant => "assistant",
            MessageRole::Tool => "tool",
        }
    }

    /// Reads a stored role.
    pub fn parse(value: &str) -> (r: Result<MessageRole>)
        ensures
            match MessageRole::from_text(value@) {
                Some(role) => r == Ok::<MessageRole, MooseError>(role),
                None => r == Err::<MessageRole, MooseError>(MooseError::InvalidMessageRole),
            },
    {
        if str_eq(value, "system") {
            Ok(MessageRole::System)
        } else if str_eq(value, "user") {
            Ok(MessageRole::User)
        } else if str_eq(value, "assistant") {
            Ok(MessageRole::Assistant)
        } else if str_eq(value, "tool") {
            Ok(MessageRole::Tool)
        } else {
            Err(MooseError::InvalidMessageRole)
        }
    }
}

impl core::str::FromStr for MessageRole {
    type Err = MooseError;

    fn from_str(value: &str) -> (r: Result<MessageRole>)
        ensures
            match MessageRole::from_text(value@) {
                Some(role) => r == Ok::<MessageRole, MooseError>(role),
                None => r == Err::<MessageRole, MooseError>(MooseError::InvalidMessageRole),
            },
    {
        MessageRole::parse(value)
    }
}

impl MessageStatus {
    pub open spec fn text(self) -> Seq<char> {
        match self {
            MessageStatus::Streaming => "streaming"@,
            MessageStatus::Complete => "complete"@,
            MessageStatus::Cancelled => "cancelled"@,
            MessageStatus::Failed => "failed"@,
        }
    }

    pub open spec fn from_text(s: Seq<char>) -> Option<MessageStatus> {
        if s == "streaming"@ {
            Some(MessageStatus::Streaming)
        } else if s == "complete"@ {
            Some(MessageStatus::Complete)
        } else if s == "cancelled"@ {
            Some(MessageStatus::Cancelled)
        } else if s == "failed"@ {
            Some(MessageStatus::Failed)
        } else {
            None
        }
    }

    pub open spec fn finished(self) -> bool {
        self != MessageStatus::Streaming
    }

    pub fn as_str(&self) -> (r: &'static str)
        ensures
            r@ == self.text(),
    {
        match self {
            MessageStatus::Streaming => "streaming",
            MessageStatus::Complete => "complete",
            MessageStatus::Cancelled => "cancelled",
            MessageStatus::Failed => "failed",
        }
    }

    /// Whether the message has stopped changing.
    pub fn is_finished(&self) -> (r: bool)
        ensures
            r == self.finished(),
    {
        match self {
            MessageStatus::Streaming => false,
            _ => true,
        }
    }

    /// Reads a stored status.
    pub fn parse(value: &str) -> (r: Result<MessageStatus>)
        ensures
            match MessageStatus::from_text(value@) {
                Some(status) => r == Ok::<MessageStatus, MooseError>(status),
                None => r == Err::<MessageStatus, MooseError>(MooseError::InvalidMessageStatus),
            },
    {
        if str_eq(value, "streaming") {
            Ok(MessageStatus::Streaming)
        } else if str_eq(value, "complete") {
            Ok(MessageStatus::Complete)
        } else if str_eq(value, "cancelled") {
            Ok(MessageStatus::Cancelled)
        } else if str_eq(value, "failed") {
            Ok(MessageStatus::Failed)
        } else {
            Err(MooseError::InvalidMessageStatus)
        }
    }
}

impl core::str::FromStr for MessageStatus {
    type Err = MooseError;

    fn from_str(value: &str) -> (r: Result<MessageStatus>)
        ensures
            match MessageStatus::from_text(value@) {
                Some(status) => r == Ok::<MessageStatus, MooseError>(status),
                None => r == Err::<MessageStatus, MooseError>(MooseError::InvalidMessageStatus),
            },
    {
        MessageStatus::parse(value)
    }
}

/// Reading back the storage value of a role gives the role.
pub proof fn lemma_message_role_round_trip(role: MessageRole)
    ensures
        MessageRole::from_text(role.text()) == Some(role),
{
    reveal_strlit("system");
    reveal_strlit("user");
    reveal_strlit("assistant");
    reveal_strlit("tool");
    assert("user"@[0] != "system"@[0]);
    assert("assistant"@.len() != "system"@.len());
    assert("assistant"@.len() != "user"@.len());
    assert("tool"@.len() != "system"@.len());
    assert("tool"@[0] != "user"@[0]);
    assert("tool"@.len() != "assistant"@.len());
}

/// Reading back the storage value of a status gives the status.
pub proof fn lemma_message_status_round_trip(status: MessageStatus)
    ensures
        MessageStatus::from_text(status.text()) == Some(status),
{
    reveal_strlit("streaming");
    reveal_strlit("complete");
    reveal_strlit("cancelled");
    reveal_strlit("failed");
    assert("complete"@.len() != "streaming"@.len());
    assert("cancelled"@[0] != "streaming"@[0]);
    assert("cancelled"@.len() != "complete"@.len());
    assert("failed"@.len() != "streaming"@.len());
    assert("failed"@.len() != "complete"@.len());
    assert("failed"@.len() != "cancelled"@.len());
}

// ----------------------------------------------------------------------
// Validators.
// ----------------------------------------------------------------------

/// The trimmed identifier.
pub fn validate_required_id(value: &str) -> (r: Result<String>)
    ensures
        r is Ok <==> required_id_ok(value@),
        r matches Ok(s) ==> s@ == trim(value@),
        r matches Err(e) ==> e == MooseError::InvalidIdentifier,
{
    let v = chars_of(value);
    let (a, b) = trim_bounds(v.as_slice());
    let t = string_from_range(v.as_slice(), a, b);
    let tv = chars_of(t.as_str());
    if tv.len() == 0 || any_ctrl(tv.as_slice()) {
        return Err(MooseError::InvalidIdentifier);
    }
    Ok(t)
}

fn validate_optional_id(value: &Option<String>) -> (r: Result<Option<String>>)
    ensures
        r is Ok <==> optional_id_ok(*value),
        r matches Ok(o) ==> match *value {
            Some(v) => o matches Some(s) && s@ == trim(v@),
            None => o is None,
        },
        r matches Err(e) ==> e == MooseError::InvalidIdentifier,
{
    match value {
        Some(v) => {
            let id = validate_required_id(v.as_str())?;
            Ok(Some(id))
        },
        None => Ok(None),
    }
}

/// The trimmed title.
pub fn validate_conversation_title(value: &str) -> (r: Result<String>)
    ensures
        r is Ok <==> title_ok(value@),
        r matches Ok(s) ==> s@ == trim(value@),
        r matches Err(e) ==> e == MooseError::InvalidConversationTitle,
{
    let v = chars_of(value);
    let (a, b) = trim_bounds(v.as_slice());
    let t = string_from_range(v.as_slice(), a, b);
    let tv = chars_of(t.as_str());
    if tv.len() == 0 || !utf8_len_at_most(tv.as_slice(), MAX_CONVERSATION_TITLE_BYTES)
        || any_invalid_text_char(tv.as_slice()) {
        return Err(MooseError::InvalidConversationTitle);
    }
    Ok(t)
}

/// The content, unchanged.
pub fn validate_message_content(value: &str, status: &MessageStatus) -> (r: Result<String>)
    ensures
        r is Ok <==> content_ok(value@, *status),
        r matches Ok(s) ==> s@ == value@,
        r matches Err(e) ==> e == MooseError::InvalidMessageContent,
{
    let v = chars_of(value);
    if any_invalid_text_char(v.as_slice()) {
        return Err(MooseError::InvalidMessageContent);
    }
    if is_blank(value) && !matches!(status, MessageStatus::Streaming | MessageStatus::Failed) {
        return Err(MooseError::InvalidMessageContent);
    }
    Ok(to_owned_string(value))
}

/// A count that must not be negative, when present.
pub fn validate_non_negative(value: Option<i64>) -> (r: Result<Option<i64>>)
    ensures
        r is Ok <==> !(value matches Some(n) && n < 0),
        r matches Ok(v) ==> v == value,
        r matches Err(e) ==> e == MooseError::InvalidGenerationSettings,
{
    match value {
        Some(n) if n < 0 => Err(MooseError::InvalidGenerationSettings),
        _ => Ok(value),
    }
}

// ----------------------------------------------------------------------
// Construction.
// ----------------------------------------------------------------------

impl NewConversation {
    /// The conversation with the given identifier and creation time.
    pub fn into_conversation_with(self, id: String, timestamp: String) -> (r: Result<Conversation>)
        ensures
            r is Ok <==> required_id_ok(self.provider_id@) && optional_id_ok(self.model_id)
                && title_ok(self.title@),
            r matches Ok(c) ==> {
                &&& c.id == id
                &&& c.provider_id@ == trim(self.provider_id@)
                &&& (match self.model_id {
                    Some(m) => c.model_id matches Some(x) && x@ == trim(m@),
                    None => c.model_id is None,
                })
                &&& c.title@ == trim(self.title@)
                &&& c.created_at == timestamp
                &&& c.updated_at == timestamp
                &&& c.archived_at is None
            },
            r matches Err(e) ==> if required_id_ok(self.provider_id@) && optional_id_ok(
                self.model_id,
            ) {
                e == MooseError::InvalidConversationTitle
            } else {
                e == MooseError::InvalidIdentifier
            },
    {
        let provider_id = validate_required_id(self.provider_id.as_str())?;
        let model_id = validate_optional_id(&self.model_id)?;
        let title = validate_conversation_title(self.title.as_str())?;
        let created_at = timestamp.clone();
        Ok(Conversation {
            id,
            provider_id,
            model_id,
            title,
            created_at,
            updated_at: timestamp,
            archived_at: None,
        })
    }

    /// The conversation with a fresh identifier, created now.
    pub fn into_conversation(self) -> (r: Result<Conversation>)
        ensures
            r is Ok <==> required_id_ok(self.provider_id@) && optional_id_ok(self.model_id)
                && title_ok(self.title@),
            r matches Ok(c) ==> {
                &&& c.provider_id@ == trim(self.provider_id@)
                &&& (match self.model_id {
                    Some(m) => c.model_id matches Some(x) && x@ == trim(m@),
                    None => c.model_id is None,
                })
                &&& c.title@ == trim(self.title@)
                &&& c.created_at == c.updated_at
                &&& c.archived_at is None
            },
            r matches Err(e) ==> if required_id_ok(self.provider_id@) && optional_id_ok(
                self.model_id,
            ) {
                e == MooseError::InvalidConversationTitle
            } else {
                e == MooseError::InvalidIdentifier
            },
    {
        let timestamp = utc_now();
        let id = new_id();
        self.into_conversation_with(id, timestamp)
    }
}

impl NewMessage {
    /// A finished message written by the user.
    pub fn user(conversation_id: &str, content: &str) -> (r: NewMessage)
        ensures
            r.conversation_id@ == conversation_id@,
            r.role == MessageRole::User,
            r.content@ == content@,
            r.status == MessageStatus::Complete,
    {
        NewMessage {
            conversation_id: to_owned_string(conversation_id),
            role: MessageRole::User,
            content: to_owned_string(content),
            status: MessageStatus::Complete,
        }
    }

    /// An empty assistant message whose content is still arriving.
    pub fn assistant_streaming(conversation_id: &str) -> (r: NewMessage)
        ensures
            r.conversation_id@ == conversation_id@,
            r.role == MessageRole::Assistant,
            r.content@.len() == 0,
            r.status == MessageStatus::Streaming,
    {
        NewMessage {
            conversation_id: to_owned_string(conversation_id),
            role: MessageRole::Assistant,
            content: String::new(),
            status: MessageStatus::Streaming,
        }
    }

    /// The message with the given identifier and creation time; a finished
    /// message is completed at its creation time.
    pub fn into_message_with(self, id: String, timestamp: String) -> (r: Result<Message>)
        ensures
            r is Ok <==> required_id_ok(self.conversation_id@) && content_ok(
                self.content@,
                self.status,
            ),
            r matches Ok(m) ==> {
                &&& m.id == id
                &&& m.conversation_id@ == trim(self.conversation_id@)
                &&& m.role == self.role
                &&& m.content@ == self.content@
                &&& m.status == self.status
                &&& m.token_count is None
                &&& m.created_at == timestamp
                &&& (if self.status.finished() {
                    m.completed_at == Some(timestamp)
                } else {
                    m.completed_at is None
                })
            },
            r matches Err(e) ==> if required_id_ok(self.conversation_id@) {
                e == MooseError::InvalidMessageContent
            } else {
                e == MooseError::InvalidIdentifier
            },
    {
        let completed_at = if self.status.is_finished() {
            Some(timestamp.clone())
        } else {
            None
        };
        let conversation_id = validate_required_id(self.conversation_id.as_str())?;
        let content = validate_message_content(self.content.as_str(), &self.status)?;
        Ok(Message {
            id,
            conversation_id,
            role: self.role,
            content,
            status: self.status,
            token_count: None,
            created_at: timestamp,
            completed_at,
        })
    }

    /// The message with a fresh identifier, created now.
    pub fn into_message(self) -> (r: Result<Message>)
        ensures
            r is Ok <==> required_id_ok(self.conversation_id@) && content_ok(
                self.content@,
                self.status,
            ),
            r matches Ok(m) ==> {
                &&& m.conversation_id@ == trim(self.conversation_id@)
                &&& m.role == self.role
                &&& m.content@ == self.content@
                &&& m.status == self.status
                &&& m.token_count is None
                &&& (if self.status.finished() {
                    m.completed_at == Some(m.created_at)
                } else {
                    m.completed_at is None
                })
            },
            r matches Err(e) ==> if required_id_ok(self.conversation_id@) {
                e == MooseError::InvalidMessageContent
            } else {
                e == MooseError::InvalidIdentifier
            },
    {
        let timestamp = utc_now();
        let id = new_id();
        self.into_message_with(id, timestamp)
    }
}

impl MessageUpdate {
    pub fn completed(id: &str, content: &str) -> (r: MessageUpdate)
        ensures
            r.id@ == id@,
            r.content@ == content@,
            r.status == MessageStatus::Complete,
            r.token_count is None,
    {
        MessageUpdate {
            id: to_owned_string(id),
            content: to_owned_string(content),
            status: MessageStatus::Complete,
            token_count: None,
        }
    }

    pub fn cancelled(id: &str, content: &str) -> (r: MessageUpdate)
        ensures
            r.id@ == id@,
            r.content@ == content@,
            r.status == MessageStatus::Cancelled,
            r.token_count is None,
    {
        MessageUpdate {
            id: to_owned_string(id),
            content: to_owned_string(content),
            status: MessageStatus::Cancelled,
            token_count: None,
        }
    }

    pub fn failed(id: &str, content: &str) -> (r: MessageUpdate)
        ensures
            r.id@ == id@,
            r.content@ == content@,
            r.status == MessageStatus::Failed,
            r.token_count is None,
    {
        MessageUpdate {
            id: to_owned_string(id),
            content: to_owned_string(content),
            status: MessageStatus::Failed,
            token_count: None,
        }
    }
}

/// A title that passes validation is stored trimmed, and the stored title
/// passes validation again unchanged.
pub proof fn lemma_title_validation_idempotent(s: Seq<char>)
    requires
        title_ok(s),
    ensures
        title_ok(trim(s)),
        trim(trim(s)) == trim(s),
{
    crate::text::lemma_trim_idempotent(s);
}

} // verus!
