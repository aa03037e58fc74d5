//! The sidebar's list of conversations: rows grouped under headings.
use vstd::prelude::*;

use crate::conversations::{Conversation, Message, MessageStatus};
use crate::presentation::chat_text::{collapsed, split_words};
use crate::text::{chars_of, join_strings, to_owned_string};

verus! {

/// A conversation as the sidebar lists it: with a one-line preview of its
/// latest message and that message's state.
pub struct ConversationSummary {
    pub conversation: Conversation,
    pub preview: String,
    pub last_message_status: Option<MessageStatus>,
}

/// The preview of a conversation's latest message: its text on one line, or,
/// when it holds no text, what became of it.
pub open spec fn preview_of(message: Option<Message>) -> Seq<char> {
    match message {
        None => Seq::empty(),
        Some(m) => if collapsed(m.content@).len() > 0 {
            collapsed(m.content@)
        } else {
            match m.status {
                MessageStatus::Streaming => "Generating response..."@,
                MessageStatus::Cancelled => "Generation cancelled"@,
                MessageStatus::Failed => "Generation failed"@,
                MessageStatus::Complete => Seq::empty(),
            }
        },
    }
}

impl ConversationSummary {
    pub fn from_latest_message(conversation: Conversation, message: Option<Message>) -> (r: Self)
        ensures
            r.conversation == conversation,
            r.last_message_status == match message {
                Some(m) => Some(m.status),
                None => None::<MessageStatus>,
            },
            r.preview@ == preview_of(message),
    {
        match message {
            None => ConversationSummary { conversation, preview: String::new(), last_message_status: None },
            Some(m) => {
                let parts = split_words(m.content.as_str());
                let joined = join_strings(parts.as_slice(), " ");
                let preview = if chars_of(joined.as_str()).len() > 0 {
                    joined
                } else {
                    match m.status {
                        MessageStatus::Streaming => to_owned_string("Generating response..."),
                        MessageStatus::Cancelled => to_owned_string("Generation cancelled"),
                        MessageStatus::Failed => to_owned_string("Generation failed"),
                        MessageStatus::Complete => String::new(),
                    }
                };
                ConversationSummary { conversation, preview, last_message_status: Some(m.status) }
            },
        }
    }
}

#[derive(Clone, Copy, Debug, PartialEq, Eq)]
pub enum ListHeading {
    Archived,
    Pinned,
    Recent,
}

/// One line of the list: a heading, or the conversation at that position.
#[derive(Clone, Copy, Debug, PartialEq, Eq)]
pub enum ListEntry {
    Heading(ListHeading),
    Row(usize),
}

/// Where a conversation goes: archived ones under Archived, else pinned ones
/// under Pinned, else under Recent. A row is `(archived, pinned)`.
pub open spec fn group_of(row: (bool, bool)) -> ListHeading {
    if row.0 {
        ListHeading::Archived
    } else if row.1 {
        ListHeading::Pinned
    } else {
        ListHeading::Recent
    }
}

/// The rows in order, each preceded by its group's heading when it is the
/// first row of that group.
pub open spec fn list_entries(rows: Seq<(bool, bool)>) -> Seq<ListEntry>
    decreases rows.len(),
{
    if rows.len() == 0 {
        Seq::empty()
    } else {
        let i = rows.len() - 1;
        let g = group_of(rows[i]);
        let first = forall|j: int| 0 <= j < i ==> group_of(#[trigger] rows[j]) != g;
        list_entries(rows.drop_last()) + (if first {
            seq![ListEntry::Heading(g)]
        } else {
            Seq::empty()
        }) + seq![ListEntry::Row(i as usize)]
    }
}

fn heading_of(archived: bool, pinned: bool) -> (r: ListHeading)
    ensures
        r == group_of((archived, pinned)),
{
    if archived {
        ListHeading::Archived
    } else if pinned {
        ListHeading::Pinned
    } else {
        ListHeading::Recent
    }
}

/// The entries of the list for conversations given as `(archived, pinned)`.
pub fn conversation_list_entries(rows: &[(bool, bool)]) -> (r: Vec<ListEntry>)
    ensures
        r@ == list_entries(rows@),
{
    let mut out: Vec<ListEntry> = Vec::new();
    let mut seen_archived = false;
    let mut seen_pinned = false;
    let mut seen_recent = false;
    let mut i: usize = 0;
    while i < rows.len()
        invariant
            i <= rows.len(),
            out@ == list_entries(rows@.subrange(0, i as int)),
            seen_archived == exists|j: int|
                0 <= j < i && group_of(#[trigger] rows@[j]) == ListHeading::Archived,
            seen_pinned == exists|j: int|
                0 <= j < i && group_of(#[trigger] rows@[j]) == ListHeading::Pinned,
            seen_recent == exists|j: int|
                0 <= j < i && group_of(#[trigger] rows@[j]) == ListHeading::Recent,
        decreases rows.len() - i,
    {
        let ghost prefix = rows@.subrange(0, i + 1);
        assert(prefix.drop_last() =~= rows@.subrange(0, i as int));
        assert(prefix[i as int] == rows@[i as int]);
        let (archived, pinned) = rows[i];
        let g = heading_of(archived, pinned);
        let seen = match g {
            ListHeading::Archived => seen_archived,
            ListHeading::Pinned => seen_pinned,
            ListHeading::Recent => seen_recent,
        };
        proof {
            if seen {
                let j = choose|j: int| 0 <= j < i && group_of(#[trigger] rows@[j]) == g;
                assert(prefix[j] == rows@[j]);
            } else {
                assert forall|j: int| 0 <= j < i implies group_of(#[trigger] prefix[j]) != g by {
                    assert(prefix[j] == rows@[j]);
                }
            }
        }
        if !seen {
            out.push(ListEntry::Heading(g));
        }
        out.push(ListEntry::Row(i));
        match g {
            ListHeading::Archived => seen_archived = true,
            ListHeading::Pinned => seen_pinned = true,
            ListHeading::Recent => seen_recent = true,
        }
        i = i + 1;
    }
    assert(rows@.subrange(0, rows.len() as int) =~= rows@);
    out
}

/// What the list says when it has no conversation to show.
pub fn empty_list_label(search_text: &str) -> (r: &'static str)
    ensures
        r@ == if search_text@.len() == 0 {
            "No conversations yet"@
        } else {
            "No matching conversations"@
        },
{
    if crate::text::chars_of(search_text).len() == 0 {
        "No conversations yet"
    } else {
        "No matching conversations"
    }
}


/// Row `i` is the first row in its group.
pub open spec fn first_of_group(rows: Seq<(bool, bool)>, i: int) -> bool {
    forall|j: int| 0 <= j < i ==> group_of(#[trigger] rows[j]) != group_of(rows[i])
}

proof fn lemma_list_entries(rows: Seq<(bool, bool)>)
    ensures
        forall|h: ListHeading| #[trigger] list_entries(rows).contains(ListEntry::Heading(h))
            <==> exists|i: int| 0 <= i < rows.len() && group_of(#[trigger] rows[i]) == h,
        forall|i: int| 0 <= i < rows.len() ==> #[trigger] list_entries(rows).contains(ListEntry::Row(i as usize)),
        forall|i: int| 0 <= i < rows.len() && #[trigger] first_of_group(rows, i) ==> exists|p: int|
            0 <= p && p + 1 < list_entries(rows).len() && list_entries(rows)[p] == ListEntry::Heading(group_of(rows[i]))
                && #[trigger] list_entries(rows)[p + 1] == ListEntry::Row(i as usize),
    decreases rows.len(),
{
    if rows.len() > 0 {
        let pre = rows.drop_last();
        let i = rows.len() - 1;
        let g = group_of(rows[i]);
        lemma_list_entries(pre);
        let ep = list_entries(pre);
        let e = list_entries(rows);
        let first = forall|j: int| 0 <= j < i ==> group_of(#[trigger] rows[j]) != g;
        let mid: Seq<ListEntry> = if first { seq![ListEntry::Heading(g)] } else { Seq::empty() };
        assert(e == ep + mid + seq![ListEntry::Row(i as usize)]);
        assert forall|j: int| 0 <= j < i implies #[trigger] pre[j] == rows[j] by {}
        assert forall|p: int| 0 <= p < ep.len() implies #[trigger] e[p] == ep[p] by {}
        assert(e[e.len() - 1] == ListEntry::Row(i as usize));
        assert forall|h: ListHeading| #[trigger] e.contains(ListEntry::Heading(h))
            <==> exists|k: int| 0 <= k < rows.len() && group_of(#[trigger] rows[k]) == h by {
            if e.contains(ListEntry::Heading(h)) {
                let p = choose|p: int| 0 <= p < e.len() && e[p] == ListEntry::Heading(h);
                if p < ep.len() {
                    assert(ep[p] == ListEntry::Heading(h));
                    assert(ep.contains(ListEntry::Heading(h)));
                    let k = choose|k: int| 0 <= k < pre.len() && group_of(#[trigger] pre[k]) == h;
                    assert(rows[k] == pre[k]);
                } else if p < ep.len() + mid.len() {
                    assert(group_of(rows[i]) == h);
                }
            }
            if exists|k: int| 0 <= k < rows.len() && group_of(#[trigger] rows[k]) == h {
                let k = choose|k: int| 0 <= k < rows.len() && group_of(#[trigger] rows[k]) == h;
                if k < i {
                    assert(group_of(pre[k]) == h);
                    assert(ep.contains(ListEntry::Heading(h)));
                    let p = choose|p: int| 0 <= p < ep.len() && ep[p] == ListEntry::Heading(h);
                    assert(e[p] == ListEntry::Heading(h));
                } else if first {
                    assert(e[ep.len() as int] == ListEntry::Heading(h));
                } else {
                    let k2 = choose|k2: int| 0 <= k2 < i && group_of(#[trigger] rows[k2]) == g;
                    assert(group_of(pre[k2]) == h);
                    assert(ep.contains(ListEntry::Heading(h)));
                    let p = choose|p: int| 0 <= p < ep.len() && ep[p] == ListEntry::Heading(h);
                    assert(e[p] == ListEntry::Heading(h));
                }
            }
        }
        assert forall|k: int| 0 <= k < rows.len() implies #[trigger] e.contains(ListEntry::Row(k as usize)) by {
            if k < i {
                assert(ep.contains(ListEntry::Row(k as usize)));
                let p = choose|p: int| 0 <= p < ep.len() && ep[p] == ListEntry::Row(k as usize);
                assert(e[p] == ListEntry::Row(k as usize));
            } else {
                assert(e[e.len() - 1] == ListEntry::Row(k as usize));
            }
        }
        assert forall|k: int| 0 <= k < rows.len() && #[trigger] first_of_group(rows, k) implies exists|p: int|
            0 <= p && p + 1 < e.len() && e[p] == ListEntry::Heading(group_of(rows[k]))
                && #[trigger] e[p + 1] == ListEntry::Row(k as usize) by {
            if k < i {
                assert forall|j: int| 0 <= j < k implies group_of(#[trigger] pre[j]) != group_of(pre[k]) by {
                    assert(group_of(rows[j]) != group_of(rows[k]));
                }
                assert(first_of_group(pre, k));
                let p = choose|p: int| 0 <= p && p + 1 < ep.len() && ep[p] == ListEntry::Heading(group_of(pre[k]))
                    && #[trigger] ep[p + 1] == ListEntry::Row(k as usize);
                assert(e[p] == ep[p]);
                assert(e[p + 1] == ep[p + 1]);
            } else {
                assert(first);
                let p = ep.len() as int;
                assert(e[p] == ListEntry::Heading(g));
                assert(e[p + 1] == ListEntry::Row(k as usize));
            }
        }
    }
}

/// The list shows every conversation, once each group's heading has been
/// given: the Archived heading appears exactly when some conversation is
/// archived (pinned or not), Pinned exactly when some unarchived one is pinned,
/// and Recent exactly when some is neither; and the first archived conversation
/// comes right after the Archived heading, the first pinned unarchived one right
/// after Pinned, and the first other one right after Recent.
pub proof fn conversation_list_law(rows: Seq<(bool, bool)>)
    ensures
        ({
            let e = list_entries(rows);
            &&& e.contains(ListEntry::Heading(ListHeading::Archived)) <==> exists|i: int| 0 <= i < rows.len() && (#[trigger] rows[i]).0
            &&& e.contains(ListEntry::Heading(ListHeading::Pinned)) <==> exists|i: int| 0 <= i < rows.len() && !(#[trigger] rows[i]).0 && rows[i].1
            &&& e.contains(ListEntry::Heading(ListHeading::Recent)) <==> exists|i: int| 0 <= i < rows.len() && !(#[trigger] rows[i]).0 && !rows[i].1
            &&& forall|i: int| 0 <= i < rows.len() ==> #[trigger] e.contains(ListEntry::Row(i as usize))
            &&& forall|i: int| 0 <= i < rows.len() && (#[trigger] rows[i]).0 && (forall|j: int| 0 <= j < i ==> !(#[trigger] rows[j]).0)
                ==> exists|p: int| 0 <= p && p + 1 < e.len() && e[p] == ListEntry::Heading(ListHeading::Archived)
                    && #[trigger] e[p + 1] == ListEntry::Row(i as usize)
            &&& forall|i: int| 0 <= i < rows.len() && !(#[trigger] rows[i]).0 && rows[i].1
                && (forall|j: int| 0 <= j < i ==> (#[trigger] rows[j]).0 || !rows[j].1)
                ==> exists|p: int| 0 <= p && p + 1 < e.len() && e[p] == ListEntry::Heading(ListHeading::Pinned)
                    && #[trigger] e[p + 1] == ListEntry::Row(i as usize)
            &&& forall|i: int| 0 <= i < rows.len() && !(#[trigger] rows[i]).0 && !rows[i].1
                && (forall|j: int| 0 <= j < i ==> (#[trigger] rows[j]).0 || rows[j].1)
                ==> exists|p: int| 0 <= p && p + 1 < e.len() && e[p] == ListEntry::Heading(ListHeading::Recent)
                    && #[trigger] e[p + 1] == ListEntry::Row(i as usize)
        }),
{
    lemma_list_entries(rows);
    let e = list_entries(rows);
    assert(e.contains(ListEntry::Heading(ListHeading::Archived)) <==> exists|i: int| 0 <= i < rows.len() && group_of(#[trigger] rows[i]) == ListHeading::Archived);
    assert(e.contains(ListEntry::Heading(ListHeading::Pinned)) <==> exists|i: int| 0 <= i < rows.len() && group_of(#[trigger] rows[i]) == ListHeading::Pinned);
    assert(e.contains(ListEntry::Heading(ListHeading::Recent)) <==> exists|i: int| 0 <= i < rows.len() && group_of(#[trigger] rows[i]) == ListHeading::Recent);
    assert forall|i: int| 0 <= i < rows.len() && (#[trigger] rows[i]).0 && (forall|j: int| 0 <= j < i ==> !(#[trigger] rows[j]).0)
        implies exists|p: int| 0 <= p && p + 1 < e.len() && e[p] == ListEntry::Heading(ListHeading::Archived)
            && #[trigger] e[p + 1] == ListEntry::Row(i as usize) by {
        assert(first_of_group(rows, i));
    }
    assert forall|i: int| 0 <= i < rows.len() && !(#[trigger] rows[i]).0 && rows[i].1
        && (forall|j: int| 0 <= j < i ==> (#[trigger] rows[j]).0 || !rows[j].1)
        implies exists|p: int| 0 <= p && p + 1 < e.len() && e[p] == ListEntry::Heading(ListHeading::Pinned)
            && #[trigger] e[p + 1] == ListEntry::Row(i as usize) by {
        assert(first_of_group(rows, i));
    }
    assert forall|i: int| 0 <= i < rows.len() && !(#[trigger] rows[i]).0 && !rows[i].1
        && (forall|j: int| 0 <= j < i ==> (#[trigger] rows[j]).0 || rows[j].1)
        implies exists|p: int| 0 <= p && p + 1 < e.len() && e[p] == ListEntry::Heading(ListHeading::Recent)
            && #[trigger] e[p + 1] == ListEntry::Row(i as usize) by {
        assert(first_of_group(rows, i));
    }
}

} // verus!
