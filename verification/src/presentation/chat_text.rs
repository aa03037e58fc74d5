//! Text shown around chat messages: headers, states, timestamps and titles.
use vstd::prelude::*;

use crate::conversations::{Message, MessageRole, MessageStatus};
use crate::error::{MooseError, Result};
use crate::text::{
    chars_of, decimal, decimal_string, is_blank, is_ws, join, join_strings, push_char,
    push_range, push_str, string_from_range, string_views, to_owned_string, trim, char_is_ws,
};

verus! {

pub const TITLE_MAX_CHARS: usize = 30;

/// The line shown while a model works on an answer.
pub fn thinking_status(model: &str) -> (r: String)
    ensures
        r@ == model@ + " is thinking..."@,
{
    let mut s = to_owned_string(model);
    push_str(&mut s, " is thinking...");
    s
}

/// The lines shown in turn while a model works on an answer, by step.
pub open spec fn thinking_text_of(model: Seq<char>, step: int) -> Seq<char> {
    if step == 0 {
        model + " is thinking..."@
    } else if step == 1 {
        "Reading your message..."@
    } else {
        "Drafting response..."@
    }
}

/// The step that follows `step` in the cycle of thinking lines.
pub fn next_thinking_step(step: usize) -> (r: usize)
    ensures
        r == (step + 1) % 3,
{
    (step % 3 + 1) % 3
}

/// The thinking line shown at a step of the cycle.
pub fn thinking_text(model: &str, step: usize) -> (r: String)
    ensures
        r@ == thinking_text_of(model@, step as int),
{
    if step == 0 {
        thinking_status(model)
    } else if step == 1 {
        to_owned_string("Reading your message...")
    } else {
        to_owned_string("Drafting response...")
    }
}

/// A message header: the role, and the formatted time when there is one.
pub fn message_header_label(role: &str, timestamp: Option<&str>) -> (r: String)
    ensures
        match timestamp {
            Some(t) if t@.len() > 0 => r@ == role@ + " - "@ + t@,
            _ => r@ == role@,
        },
{
    let mut s = to_owned_string(role);
    match timestamp {
        Some(t) => {
            if chars_of(t).len() > 0 {
                push_str(&mut s, " - ");
                push_str(&mut s, t);
            }
        },
        None => {},
    }
    s
}

pub open spec fn month_text(month: i32) -> Seq<char> {
    if month == 1 {
        "January"@
    } else if month == 2 {
        "February"@
    } else if month == 3 {
        "March"@
    } else if month == 4 {
        "April"@
    } else if month == 5 {
        "May"@
    } else if month == 6 {
        "June"@
    } else if month == 7 {
        "July"@
    } else if month == 8 {
        "August"@
    } else if month == 9 {
        "September"@
    } else if month == 10 {
        "October"@
    } else if month == 11 {
        "November"@
    } else if month == 12 {
        "December"@
    } else {
        ""@
    }
}

/// The English name of a month (1 to 12); empty for other numbers.
pub fn month_name(month: i32) -> (r: &'static str)
    ensures
        r@ == month_text(month),
{
    match month {
        1 => "January",
        2 => "February",
        3 => "March",
        4 => "April",
        5 => "May",
        6 => "June",
        7 => "July",
        8 => "August",
        9 => "September",
        10 => "October",
        11 => "November",
        12 => "December",
        _ => "",
    }
}

pub open spec fn two_digits(n: nat) -> Seq<char> {
    if n < 10 {
        "0"@ + decimal(n)
    } else {
        decimal(n)
    }
}

pub open spec fn twelve_hour(hour: int) -> nat {
    if hour % 12 == 0 {
        12
    } else {
        (hour % 12) as nat
    }
}

/// `January 5, 3:07 PM` for a local date and time.
pub open spec fn datetime_text(month: i32, day: i32, hour: i32, minute: i32) -> Seq<char> {
    month_text(month) + " "@ + decimal(day as nat) + ", "@ + decimal(twelve_hour(hour as int)) + ":"@
        + two_digits(minute as nat) + " "@ + if hour < 12 {
        "AM"@
    } else {
        "PM"@
    }
}

/// The time a message was written, as shown in its header.
pub fn format_message_datetime(month: i32, day: i32, hour: i32, minute: i32) -> (r: String)
    requires
        1 <= day <= 31,
        0 <= hour < 24,
        0 <= minute < 60,
    ensures
        r@ == datetime_text(month, day, hour, minute),
{
    let display_hour: u64 = if hour % 12 == 0 {
        12
    } else {
        (hour % 12) as u64
    };
    let mut s = to_owned_string(month_name(month));
    push_str(&mut s, " ");
    let day_text = decimal_string(day as u64);
    push_str(&mut s, day_text.as_str());
    push_str(&mut s, ", ");
    let hour_text = decimal_string(display_hour);
    push_str(&mut s, hour_text.as_str());
    push_str(&mut s, ":");
    let ghost before_minute = s@;
    if minute < 10 {
        push_str(&mut s, "0");
    }
    let minute_text = decimal_string(minute as u64);
    push_str(&mut s, minute_text.as_str());
    proof {
        if minute < 10 {
            assert(s@ =~= before_minute + ("0"@ + decimal(minute as nat)));
        } else {
            assert(s@ =~= before_minute + decimal(minute as nat));
        }
    }
    push_str(&mut s, " ");
    if hour < 12 {
        push_str(&mut s, "AM");
    } else {
        push_str(&mut s, "PM");
    }
    proof {
        assert(s@ =~= datetime_text(month, day, hour, minute));
    }
    s
}

pub open spec fn role_label(role: MessageRole) -> Seq<char> {
    match role {
        MessageRole::System => "System"@,
        MessageRole::User => "You"@,
        MessageRole::Assistant => "Assistant"@,
        MessageRole::Tool => "Tool"@,
    }
}

/// Who a message is from, as shown in its header.
pub fn message_role_label(role: &MessageRole) -> (r: &'static str)
    ensures
        r@ == role_label(*role),
{
    match role {
        MessageRole::System => "System",
        MessageRole::User => "You",
        MessageRole::Assistant => "Assistant",
        MessageRole::Tool => "Tool",
    }
}

/// The content followed by a state line, or the state alone for blank content.
pub open spec fn content_with_state(content: Seq<char>, state: Seq<char>) -> Seq<char> {
    if trim(content).len() == 0 {
        state
    } else {
        content + "\n\n"@ + state
    }
}

pub fn message_content_with_live_state(content: &str, state: &str) -> (r: String)
    ensures
        r@ == content_with_state(content@, state@),
{
    if is_blank(content) {
        to_owned_string(state)
    } else {
        let mut s = to_owned_string(content);
        push_str(&mut s, "\n\n");
        push_str(&mut s, state);
        s
    }
}

pub fn message_content_with_state(message: &Message, state: &str) -> (r: String)
    ensures
        r@ == content_with_state(message.content@, state@),
{
    message_content_with_live_state(message.content.as_str(), state)
}

/// What a stored message shows: a placeholder while an empty answer streams,
/// and the end state of a cancelled or failed answer.
pub open spec fn shown_content(m: Message) -> Seq<char> {
    match m.status {
        MessageStatus::Streaming => if trim(m.content@).len() == 0 {
            "Generating response..."@
        } else {
            m.content@
        },
        MessageStatus::Cancelled => content_with_state(m.content@, "Generation cancelled"@),
        MessageStatus::Failed => content_with_state(m.content@, "Generation failed"@),
        MessageStatus::Complete => m.content@,
    }
}

pub fn stored_message_content(message: &Message) -> (r: String)
    ensures
        r@ == shown_content(*message),
{
    match message.status {
        MessageStatus::Streaming => {
            if is_blank(message.content.as_str()) {
                to_owned_string("Generating response...")
            } else {
                message.content.clone()
            }
        },
        MessageStatus::Cancelled => message_content_with_state(message, "Generation cancelled"),
        MessageStatus::Failed => message_content_with_state(message, "Generation failed"),
        MessageStatus::Complete => message.content.clone(),
    }
}

// ----------------------------------------------------------------------
// Conversation titles.
// ----------------------------------------------------------------------

/// A title cut to 30 characters: longer ones keep 27 and end in `...`.
pub open spec fn truncated_title(t: Seq<char>) -> Seq<char> {
    if t.len() <= 30 {
        t
    } else {
        t.subrange(0, 27) + "..."@
    }
}

pub fn truncate_title(title: &str) -> (r: String)
    ensures
        r@ == truncated_title(title@),
{
    let v = chars_of(title);
    if v.len() <= TITLE_MAX_CHARS {
        return to_owned_string(title);
    }
    let mut s = string_from_range(v.as_slice(), 0, TITLE_MAX_CHARS - 3);
    push_str(&mut s, "...");
    s
}

/// The words of a text (`str::split_whitespace`), with the word collected so far.
pub open spec fn words_from(s: Seq<char>, cur: Seq<char>) -> Seq<Seq<char>>
    decreases s.len(),
{
    if s.len() == 0 {
        if cur.len() == 0 {
            Seq::empty()
        } else {
            seq![cur]
        }
    } else if is_ws(s[0]) {
        (if cur.len() == 0 {
            Seq::empty()
        } else {
            seq![cur]
        }) + words_from(s.drop_first(), Seq::empty())
    } else {
        words_from(s.drop_first(), cur.push(s[0]))
    }
}

pub open spec fn words(s: Seq<char>) -> Seq<Seq<char>> {
    words_from(s, Seq::empty())
}

/// `str::split_whitespace` into owned words.
pub fn split_words(s: &str) -> (out: Vec<String>)
    ensures
        string_views(out@) == words(s@),
{
    let v = chars_of(s);
    let mut out: Vec<String> = Vec::new();
    let mut cur = String::new();
    let mut cur_len: usize = 0;
    let mut i: usize = 0;
    assert(v@.subrange(0, v.len() as int) =~= v@);
    while i < v.len()
        invariant
            i <= v.len(),
            cur_len == cur@.len(),
            cur_len <= i,
            string_views(out@) + words_from(v@.subrange(i as int, v.len() as int), cur@) == words(
                s@,
            ),
            v@ == s@,
        decreases v.len() - i,
    {
        let ghost rest = v@.subrange(i as int, v.len() as int);
        assert(rest.drop_first() =~= v@.subrange(i + 1, v.len() as int));
        assert(rest[0] == v@[i as int]);
        if char_is_ws(v[i]) {
            if cur_len > 0 {
                let ghost before = out@;
                let word = cur;
                cur = String::new();
                cur_len = 0;
                out.push(word);
                assert(string_views(out@) =~= string_views(before) + seq![word@]);
                assert(string_views(out@) + words_from(v@.subrange(i + 1, v.len() as int), cur@)
                    =~= string_views(before) + (seq![word@] + words_from(
                    v@.subrange(i + 1, v.len() as int),
                    Seq::empty(),
                )));
            } else {
                assert(cur@ =~= Seq::<char>::empty());
                assert(Seq::<Seq<char>>::empty() + words_from(
                    v@.subrange(i + 1, v.len() as int),
                    Seq::empty(),
                ) =~= words_from(v@.subrange(i + 1, v.len() as int), Seq::empty()));
            }
        } else {
            push_char(&mut cur, v[i]);
            cur_len = cur_len + 1;
        }
        i = i + 1;
    }
    if cur_len > 0 {
        let ghost before = out@;
        out.push(cur);
        assert(string_views(out@) =~= string_views(before) + seq![cur@]);
    } else {
        assert(string_views(out@) =~= string_views(out@) + Seq::<Seq<char>>::empty());
    }
    out
}

/// The title a model suggested, with runs of whitespace made single spaces.
pub open spec fn collapsed(s: Seq<char>) -> Seq<char> {
    join(words(s), " "@)
}

/// The part of a model's answer that holds the JSON object: the whole trimmed
/// answer when it is braced, else from its first `{` to its last `}`.
pub open spec fn braced(t: Seq<char>) -> bool {
    t.len() > 0 && t[0] == '{' && t.last() == '}'
}

pub open spec fn first_index_of(t: Seq<char>, c: char, i: int) -> bool {
    0 <= i < t.len() && t[i] == c && forall|j: int| 0 <= j < i ==> t[j] != c
}

pub open spec fn last_index_of(t: Seq<char>, c: char, i: int) -> bool {
    0 <= i < t.len() && t[i] == c && forall|j: int| i < j < t.len() ==> t[j] != c
}

/// Whether, in the trimmed text, the range from the first `{` through the last
/// `}` would run backwards: the `{` stands after the character that follows the
/// `}`. (When the `{` directly follows the `}` the range is empty.)
pub open spec fn braces_reversed(t: Seq<char>) -> bool {
    !braced(t) && exists|a: int, b: int| first_index_of(t, '{', a) && last_index_of(t, '}', b) && b + 1 < a
}

pub open spec fn json_text_of(response: Seq<char>) -> Seq<char> {
    let t = trim(response);
    if braced(t) {
        t
    } else if (exists|a: int| first_index_of(t, '{', a)) && (exists|b: int| last_index_of(t, '}', b)) {
        let a = choose|a: int| first_index_of(t, '{', a);
        let b = choose|b: int| last_index_of(t, '}', b);
        t.subrange(a, b + 1)
    } else {
        t
    }
}

/// Whether a title answer's first `{` stands past the character after its
/// last `}`, with the answer not braced as a whole: no range from the one to
/// the other can be cut out of it then.
pub fn title_braces_reversed(response: &str) -> (r: bool)
    ensures
        r == braces_reversed(trim(response@)),
{
    let v = chars_of(response);
    let (a0, b0) = crate::text::trim_bounds(v.as_slice());
    let tv = crate::text::chars_range(v.as_slice(), a0, b0);
    let n = tv.len();
    if n > 0 && tv[0] == '{' && tv[n - 1] == '}' {
        return false;
    }
    let mut a: usize = 0;
    while a < n && tv[a] != '{'
        invariant
            a <= n == tv.len(),
            forall|j: int| 0 <= j < a ==> tv@[j] != '{',
        decreases n - a,
    {
        a = a + 1;
    }
    let mut b: usize = n;
    while b > 0 && tv[b - 1] != '}'
        invariant
            b <= n == tv.len(),
            forall|j: int| b <= j < n ==> tv@[j] != '}',
        decreases b,
    {
        b = b - 1;
    }
    if a == n || b == 0 {
        proof {
            if a == n {
                assert forall|x: int, y: int| first_index_of(tv@, '{', x) && last_index_of(tv@, '}', y) implies y >= x by {
                    assert(tv@[x] == '{');
                }
            } else {
                assert forall|x: int, y: int| first_index_of(tv@, '{', x) && last_index_of(tv@, '}', y) implies y >= x by {
                    assert(tv@[y] == '}');
                }
            }
        }
        return false;
    }
    proof {
        assert(first_index_of(tv@, '{', a as int));
        assert(last_index_of(tv@, '}', b - 1));
        assert forall|x: int, y: int| first_index_of(tv@, '{', x) && last_index_of(tv@, '}', y) implies x == a && y == b - 1 by {
            if x < a {
                assert(tv@[x] != '{');
            }
            if x > a {
                assert(tv@[a as int] != '{');
            }
            if y < b - 1 {
                assert(tv@[b - 1] != '}');
            }
            if y > b - 1 {
                assert(tv@[y] != '}');
            }
        }
        if b < a {
            let y: int = b - 1;
            assert(first_index_of(tv@, '{', a as int) && last_index_of(tv@, '}', y) && y + 1 < a);
        }
    }
    b < a
}

/// Cuts the JSON object out of a model's title answer.
pub fn title_json_text(response: &str) -> (r: String)
    requires
        !braces_reversed(trim(response@)),
    ensures
        r@ == json_text_of(response@),
{
    let v = chars_of(response);
    let (a0, b0) = crate::text::trim_bounds(v.as_slice());
    let t = string_from_range(v.as_slice(), a0, b0);
    let tv = chars_of(t.as_str());
    let n = tv.len();
    if n > 0 && tv[0] == '{' && tv[n - 1] == '}' {
        return t;
    }
    let mut a: usize = 0;
    while a < n && tv[a] != '{'
        invariant
            a <= n == tv.len(),
            forall|j: int| 0 <= j < a ==> tv@[j] != '{',
        decreases n - a,
    {
        a = a + 1;
    }
    let mut b: usize = n;
    while b > 0 && tv[b - 1] != '}'
        invariant
            b <= n == tv.len(),
            forall|j: int| b <= j < n ==> tv@[j] != '}',
        decreases b,
    {
        b = b - 1;
    }
    if a == n || b == 0 {
        proof {
            if a == n {
                assert(!exists|x: int| first_index_of(tv@, '{', x));
            } else {
                assert(!exists|x: int| last_index_of(tv@, '}', x));
            }
        }
        return t;
    }
    proof {
        assert(first_index_of(tv@, '{', a as int));
        assert(last_index_of(tv@, '}', b - 1));
        let x = choose|x: int| first_index_of(tv@, '{', x);
        let y = choose|y: int| last_index_of(tv@, '}', y);
        assert(x == a) by {
            if x < a {
                assert(tv@[x] != '{');
            }
            if x > a {
                assert(tv@[a as int] != '{');
            }
        }
        assert(y == b - 1) by {
            if y < b - 1 {
                assert(tv@[b - 1] != '}');
            }
            if y > b - 1 {
                assert(tv@[y] != '}');
            }
        }
        assert(a <= b);
    }
    string_from_range(tv.as_slice(), a, b)
}

/// The title a model suggested: whitespace collapsed, refused when blank, cut
/// to 30 characters.
pub fn generated_title(suggested: &str) -> (r: Result<String>)
    ensures
        collapsed(suggested@).len() == 0 ==> r == Err::<String, MooseError>(
            MooseError::InvalidConversationTitle,
        ),
        collapsed(suggested@).len() > 0 ==> (r matches Ok(t) && t@ == truncated_title(
            collapsed(suggested@),
        )),
{
    let parts = split_words(suggested);
    let joined = join_strings(parts.as_slice(), " ");
    proof {
        lemma_words_have_no_edge_space(suggested@);
        lemma_join_words_trimmed(words(suggested@));
    }
    if chars_of(joined.as_str()).len() == 0 {
        return Err(MooseError::InvalidConversationTitle);
    }
    Ok(truncate_title(joined.as_str()))
}

/// Every word is non-empty.
pub proof fn lemma_words_have_no_edge_space(s: Seq<char>)
    ensures
        forall|i: int| 0 <= i < words(s).len() ==> (#[trigger] words(s)[i]).len() > 0,
{
    lemma_words_from_nonempty(s, Seq::empty());
}

proof fn lemma_words_from_nonempty(s: Seq<char>, cur: Seq<char>)
    ensures
        forall|i: int| 0 <= i < words_from(s, cur).len() ==> (#[trigger] words_from(s, cur)[i]).len() > 0,
    decreases s.len(),
{
    if s.len() > 0 {
        if is_ws(s[0]) {
            lemma_words_from_nonempty(s.drop_first(), Seq::empty());
            let head: Seq<Seq<char>> = if cur.len() == 0 {
                Seq::empty()
            } else {
                seq![cur]
            };
            let rest = words_from(s.drop_first(), Seq::empty());
            assert(words_from(s, cur) == head + rest);
            assert forall|i: int| 0 <= i < (head + rest).len() implies (#[trigger] (head + rest)[i]).len() > 0 by {
                if i >= head.len() {
                    assert((head + rest)[i] == rest[i - head.len()]);
                }
            }
        } else {
            lemma_words_from_nonempty(s.drop_first(), cur.push(s[0]));
            assert(words_from(s, cur) == words_from(s.drop_first(), cur.push(s[0])));
        }
    } else if cur.len() > 0 {
        assert(words_from(s, cur) == seq![cur]);
        assert(seq![cur][0] == cur);
    } else {
        assert(words_from(s, cur).len() == 0);
    }
}

/// Joining non-empty words gives a non-empty text unless there are none.
proof fn lemma_join_words_trimmed(ws: Seq<Seq<char>>)
    requires
        forall|i: int| 0 <= i < ws.len() ==> (#[trigger] ws[i]).len() > 0,
    ensures
        (join(ws, " "@).len() == 0) == (ws.len() == 0),
    decreases ws.len(),
{
    if ws.len() > 1 {
        assert(ws.last() == ws[ws.len() - 1]);
        assert(ws.last().len() > 0);
    } else if ws.len() == 1 {
        assert(ws[0].len() > 0);
    }
}

/// A truncated title never exceeds 30 characters, and a title that fits is kept whole.
pub proof fn lemma_truncated_title_fits(t: Seq<char>)
    ensures
        truncated_title(t).len() <= 30,
        t.len() <= 30 ==> truncated_title(t) == t,
        t.len() > 30 ==> truncated_title(t).subrange(0, 27) == t.subrange(0, 27),
{
    reveal_strlit("...");
    if t.len() > 30 {
        assert((t.subrange(0, 27) + "..."@).subrange(0, 27) =~= t.subrange(0, 27));
    }
}

} // verus!
