//! A conversation written out as Markdown or plain text, and the file name it is saved under.
use vstd::prelude::*;

use crate::conversations::{Conversation, Message, MessageRole};
use crate::providers::Provider;
use crate::text::{
    chars_of, is_ascii_alnum, join, join_strings, lower_char, pieces, push_str, split_pieces,
    string_from_range, to_owned_string, trim_end, trim_end_char, trim_end_string,
    char_is_ascii_alnum, char_to_lower, lemma_trim_end_char_skip,
};

verus! {

#[derive(Clone, Copy, Debug, PartialEq, Eq)]
pub enum ExportFormat {
    Markdown,
    Json,
    Text,
}

/// Everything an export holds: the conversation, its provider, the model in
/// use, when it was exported, and its messages in order.
pub struct ExportData {
    pub conversation: Conversation,
    pub provider: Provider,
    pub model: Option<String>,
    pub exported_at: String,
    pub messages: Vec<Message>,
}

pub open spec fn heading(role: MessageRole) -> Seq<char> {
    match role {
        MessageRole::User => "You"@,
        MessageRole::Assistant => "Assistant"@,
        MessageRole::System => "System"@,
        MessageRole::Tool => "Tool"@,
    }
}

/// The heading a message is exported under.
pub fn message_heading(message: &Message) -> (r: &'static str)
    ensures
        r@ == heading(message.role),
{
    match message.role {
        MessageRole::User => "You",
        MessageRole::Assistant => "Assistant",
        MessageRole::System => "System",
        MessageRole::Tool => "Tool",
    }
}

pub open spec fn model_text(model: Option<String>) -> Seq<char> {
    match model {
        Some(m) => m@,
        None => "Not set"@,
    }
}

/// The lines under the title: provider, model and export time.
pub open spec fn details(d: ExportData) -> Seq<char> {
    "Provider: "@ + d.provider.name@ + "\n"@ + "Model: "@ + model_text(d.model) + "\n"@
        + "Exported: "@ + d.exported_at@ + "\n\n"@
}

/// The messages, each as its heading (after `prefix`), a blank line, its
/// content without trailing whitespace, and a blank line.
pub open spec fn message_blocks(msgs: Seq<Message>, prefix: Seq<char>) -> Seq<char>
    decreases msgs.len(),
{
    if msgs.len() == 0 {
        Seq::empty()
    } else {
        message_blocks(msgs.drop_last(), prefix) + prefix + heading(msgs.last().role) + "\n\n"@
            + trim_end(msgs.last().content@) + "\n\n"@
    }
}

pub open spec fn markdown_text(d: ExportData) -> Seq<char> {
    "# "@ + d.conversation.title@ + "\n\n"@ + details(d) + message_blocks(d.messages@, "## "@)
}

pub open spec fn plain_text(d: ExportData) -> Seq<char> {
    d.conversation.title@ + "\n\n"@ + details(d) + message_blocks(d.messages@, ""@)
}

fn push_details(out: &mut String, data: &ExportData)
    ensures
        final(out)@ == old(out)@ + details(*data),
{
    push_str(out, "Provider: ");
    push_str(out, data.provider.name.as_str());
    push_str(out, "\n");
    push_str(out, "Model: ");
    match &data.model {
        Some(m) => push_str(out, m.as_str()),
        None => push_str(out, "Not set"),
    }
    push_str(out, "\n");
    push_str(out, "Exported: ");
    push_str(out, data.exported_at.as_str());
    push_str(out, "\n\n");
}

fn push_messages(out: &mut String, messages: &Vec<Message>, prefix: &str)
    ensures
        final(out)@ == old(out)@ + message_blocks(messages@, prefix@),
{
    let ghost start = out@;
    let mut i: usize = 0;
    while i < messages.len()
        invariant
            i <= messages.len(),
            out@ == start + message_blocks(messages@.subrange(0, i as int), prefix@),
        decreases messages.len() - i,
    {
        let message = &messages[i];
        push_str(out, prefix);
        push_str(out, message_heading(message));
        push_str(out, "\n\n");
        let content = trim_end_string(message.content.as_str());
        push_str(out, content.as_str());
        push_str(out, "\n\n");
        i = i + 1;
        assert(messages@.subrange(0, i as int).drop_last() =~= messages@.subrange(0, i - 1));
    }
    assert(messages@.subrange(0, messages.len() as int) =~= messages@);
}

/// The conversation as Markdown: a `#` title, the details, and a `##` heading per message.
pub fn markdown(data: &ExportData) -> (r: String)
    ensures
        r@ == markdown_text(*data),
{
    let mut output = String::new();
    push_str(&mut output, "# ");
    push_str(&mut output, data.conversation.title.as_str());
    push_str(&mut output, "\n\n");
    push_details(&mut output, data);
    push_messages(&mut output, &data.messages, "## ");
    output
}

/// The conversation as plain text: the title, the details, and each message under its heading.
pub fn text(data: &ExportData) -> (r: String)
    ensures
        r@ == plain_text(*data),
{
    let mut output = String::new();
    push_str(&mut output, data.conversation.title.as_str());
    push_str(&mut output, "\n\n");
    push_details(&mut output, data);
    push_messages(&mut output, &data.messages, "");
    output
}

pub open spec fn extension_text(format: ExportFormat) -> Seq<char> {
    match format {
        ExportFormat::Markdown => "md"@,
        ExportFormat::Json => "json"@,
        ExportFormat::Text => "txt"@,
    }
}

pub fn extension(format: ExportFormat) -> (r: &'static str)
    ensures
        r@ == extension_text(format),
{
    match format {
        ExportFormat::Markdown => "md",
        ExportFormat::Json => "json",
        ExportFormat::Text => "txt",
    }
}

/// Letters, digits, `-` and `_` stay (letters in lower case); anything else becomes `-`.
pub open spec fn filename_char(c: char) -> char {
    if is_ascii_alnum(c) || c == '-' || c == '_' {
        lower_char(c)
    } else {
        '-'
    }
}

pub open spec fn filename_chars(title: Seq<char>) -> Seq<char> {
    title.map_values(|c: char| filename_char(c))
}

/// The stem of an export's file name: the title's characters mapped by
/// `filename_char`, runs of `-` collapsed and removed at both ends,
/// `conversation` when nothing is left, and at most 80 characters (all of
/// them ASCII) with no `-` at the end.
pub open spec fn filename_stem(title: Seq<char>) -> Seq<char> {
    let joined = join(pieces(filename_chars(title), '-', '-'), "-"@);
    let stem = if joined.len() == 0 {
        "conversation"@
    } else {
        joined
    };
    if stem.len() > 80 {
        trim_end_char(stem.subrange(0, 80), '-')
    } else {
        stem
    }
}

pub open spec fn filename_of(title: Seq<char>, format: ExportFormat) -> Seq<char> {
    filename_stem(title) + "."@ + extension_text(format)
}

fn filename_char_of(c: char) -> (r: char)
    ensures
        r == filename_char(c),
{
    if char_is_ascii_alnum(c) || c == '-' || c == '_' {
        char_to_lower(c)
    } else {
        '-'
    }
}

/// The file name an export is offered under.
pub fn default_filename(title: &str, format: ExportFormat) -> (r: String)
    ensures
        r@ == filename_of(title@, format),
{
    let v = chars_of(title);
    let mut mapped: Vec<char> = Vec::new();
    let mut i: usize = 0;
    while i < v.len()
        invariant
            i <= v.len(),
            mapped@ == filename_chars(v@.subrange(0, i as int)),
        decreases v.len() - i,
    {
        mapped.push(filename_char_of(v[i]));
        i = i + 1;
        assert(mapped@ =~= filename_chars(v@.subrange(0, i as int)));
    }
    assert(v@.subrange(0, v.len() as int) =~= v@);
    let parts = split_pieces(mapped.as_slice(), '-', '-');
    let joined = join_strings(parts.as_slice(), "-");
    let mut stem = if chars_of(joined.as_str()).len() == 0 {
        to_owned_string("conversation")
    } else {
        joined
    };
    let sv = chars_of(stem.as_str());
    if sv.len() > 80 {
        let mut b: usize = 80;
        while b > 0 && sv[b - 1] == '-'
            invariant
                b <= 80 < sv.len(),
                forall|j: int| b <= j < 80 ==> #[trigger] sv@[j] == '-',
            decreases b,
        {
            b = b - 1;
        }
        proof {
            let t = sv@.subrange(0, 80);
            assert forall|j: int| b <= j < t.len() implies #[trigger] t[j] == '-' by {
                assert(t[j] == sv@[j]);
            }
            lemma_trim_end_char_skip(t, '-', b as int);
            let u = t.subrange(0, b as int);
            assert(u =~= sv@.subrange(0, b as int));
            if u.len() > 0 {
                assert(u.last() == sv@[b - 1]);
            }
            assert(trim_end_char(u, '-') == u);
        }
        stem = string_from_range(sv.as_slice(), 0, b);
    }
    push_str(&mut stem, ".");
    push_str(&mut stem, extension(format));
    stem
}

proof fn lemma_trim_end_char_keeps_first(u: Seq<char>, c: char)
    requires
        u.len() > 0,
        u[0] != c,
    ensures
        trim_end_char(u, c).len() > 0,
        trim_end_char(u, c).len() <= u.len(),
        trim_end_char(u, c)[0] == u[0],
        trim_end_char(u, c).last() != c,
    decreases u.len(),
{
    if u.last() == c {
        assert(u.len() > 1);
        let t = u.drop_last();
        assert(t[0] == u[0]);
        lemma_trim_end_char_keeps_first(t, c);
    }
}

/// The stem of an export's file name is never empty, holds at most 80
/// characters, and neither starts nor ends with `-`.
pub proof fn lemma_filename_stem_shape(title: Seq<char>)
    ensures
        filename_stem(title).len() > 0,
        filename_stem(title).len() <= 80,
        filename_stem(title)[0] != '-',
        filename_stem(title).last() != '-',
{
    let ps = pieces(filename_chars(title), '-', '-');
    crate::text::lemma_pieces_from_shape(filename_chars(title), '-', '-', Seq::empty());
    let joined = join(ps, "-"@);
    reveal_strlit("conversation");
    let stem = if joined.len() == 0 {
        "conversation"@
    } else {
        joined
    };
    if joined.len() > 0 {
        assert(ps.len() > 0);
        crate::text::lemma_join_ends(ps, "-"@);
        assert(ps[0].len() > 0);
        assert(ps[0][0] != '-');
        assert(ps.last() == ps[ps.len() - 1]);
        assert(ps.last()[ps.last().len() - 1] != '-');
    }
    assert(stem[0] != '-');
    assert(stem.last() != '-');
    if stem.len() > 80 {
        let u = stem.subrange(0, 80);
        assert(u[0] == stem[0]);
        lemma_trim_end_char_keeps_first(u, '-');
    }
}


/// The exported blocks of two runs of messages, one after the other, are the
/// blocks of the first run followed by those of the second; and a single
/// message, whatever its status, is exported as `prefix`, its heading, a blank
/// line, its content without trailing whitespace, and a blank line. So every
/// message of a conversation appears in its export, in order.
pub proof fn export_blocks_law(a: Seq<Message>, b: Seq<Message>, m: Message, prefix: Seq<char>)
    ensures
        message_blocks(a + b, prefix) == message_blocks(a, prefix) + message_blocks(b, prefix),
        message_blocks(seq![m], prefix) == prefix + heading(m.role) + "\n\n"@ + trim_end(m.content@)
            + "\n\n"@,
    decreases b.len(),
{
    assert(seq![m].drop_last() =~= Seq::<Message>::empty());
    assert(message_blocks(Seq::<Message>::empty(), prefix) == Seq::<char>::empty());
    if b.len() == 0 {
        assert(a + b =~= a);
        assert(message_blocks(a, prefix) + Seq::<char>::empty() =~= message_blocks(a, prefix));
    } else {
        export_blocks_law(a, b.drop_last(), m, prefix);
        assert((a + b).drop_last() =~= a + b.drop_last());
        assert((a + b).last() == b.last());
        let tail = prefix + heading(b.last().role) + "\n\n"@ + trim_end(b.last().content@) + "\n\n"@;
        assert(message_blocks(a + b, prefix) == message_blocks(a + b.drop_last(), prefix) + tail);
        assert(message_blocks(b, prefix) == message_blocks(b.drop_last(), prefix) + tail);
        assert(message_blocks(a, prefix) + message_blocks(b.drop_last(), prefix) + tail =~= message_blocks(a, prefix)
            + (message_blocks(b.drop_last(), prefix) + tail));
    }
}

/// An export does not depend on the messages' statuses: two runs of messages
/// with the same roles and contents are exported alike, so a cancelled or
/// failed reply is exported like a complete one.
pub proof fn export_ignores_status(msgs: Seq<Message>, others: Seq<Message>, prefix: Seq<char>)
    requires
        msgs.len() == others.len(),
        forall|i: int| 0 <= i < msgs.len() ==> #[trigger] msgs[i].role == others[i].role && msgs[i].content@
            == others[i].content@,
    ensures
        message_blocks(msgs, prefix) == message_blocks(others, prefix),
    decreases msgs.len(),
{
    if msgs.len() > 0 {
        assert forall|i: int| 0 <= i < msgs.drop_last().len() implies #[trigger] msgs.drop_last()[i].role
            == others.drop_last()[i].role && msgs.drop_last()[i].content@ == others.drop_last()[i].content@ by {
            assert(msgs.drop_last()[i] == msgs[i]);
            assert(others.drop_last()[i] == others[i]);
        }
        export_ignores_status(msgs.drop_last(), others.drop_last(), prefix);
        assert(msgs.last() == msgs[msgs.len() - 1]);
    }
}

} // verus!
