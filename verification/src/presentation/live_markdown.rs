//! A streaming answer cut into plain text and fenced code blocks, so that a
//! half-written reply can be shown while it grows.
use vstd::prelude::*;

use crate::presentation::code::{code_language, code_language_of};
use crate::text::{
    chars_of, push_char, push_str, string_from_range, string_views, trim, trim_bounds,
    trim_start_char, lemma_trim_start_char_skip,
};

verus! {

#[derive(Clone, Copy, Debug, PartialEq, Eq)]
pub enum LiveSegmentKind {
    Text,
    Code,
}

/// A run of plain text, or the body of one code block with its language.
#[derive(Debug)]
pub struct LiveSegment {
    pub kind: LiveSegmentKind,
    pub content: String,
    pub language: String,
}

impl View for LiveSegment {
    type V = (LiveSegmentKind, Seq<char>, Seq<char>);

    open spec fn view(&self) -> Self::V {
        (self.kind, self.content@, self.language@)
    }
}

pub open spec fn segment_views(v: Seq<LiveSegment>) -> Seq<(LiveSegmentKind, Seq<char>, Seq<char>)> {
    v.map_values(|s: LiveSegment| s@)
}

/// The line that opens a code block: its fence character, how many of them, and the info text.
#[derive(Debug)]
pub struct CodeFence {
    pub marker: char,
    pub length: usize,
    pub info: String,
}

// ----------------------------------------------------------------------
// Lines.
// ----------------------------------------------------------------------

/// `str::split_inclusive('\n')`, with the line collected so far: every line
/// keeps its newline, and a last line without one is kept when non-empty.
pub open spec fn inclusive_lines_from(s: Seq<char>, cur: Seq<char>) -> Seq<Seq<char>>
    decreases s.len(),
{
    if s.len() == 0 {
        if cur.len() == 0 {
            Seq::empty()
        } else {
            seq![cur]
        }
    } else if s[0] == '\n' {
        seq![cur.push('\n')] + inclusive_lines_from(s.drop_first(), Seq::empty())
    } else {
        inclusive_lines_from(s.drop_first(), cur.push(s[0]))
    }
}

pub open spec fn inclusive_lines(s: Seq<char>) -> Seq<Seq<char>> {
    inclusive_lines_from(s, Seq::empty())
}

pub fn split_inclusive_lines(content: &str) -> (out: Vec<String>)
    ensures
        string_views(out@) == inclusive_lines(content@),
{
    let v = chars_of(content);
    let mut out: Vec<String> = Vec::new();
    let mut cur = String::new();
    let mut cur_len: usize = 0;
    let mut i: usize = 0;
    assert(v@.subrange(0, v.len() as int) =~= v@);
    while i < v.len()
        invariant
            i <= v.len(),
            v@ == content@,
            cur_len == cur@.len(),
            cur_len <= i,
            string_views(out@) + inclusive_lines_from(v@.subrange(i as int, v.len() as int), cur@)
                == inclusive_lines(content@),
        decreases v.len() - i,
    {
        let ghost rest = v@.subrange(i as int, v.len() as int);
        assert(rest.drop_first() =~= v@.subrange(i + 1, v.len() as int));
        assert(rest[0] == v@[i as int]);
        if v[i] == '\n' {
            push_char(&mut cur, '\n');
            let ghost before = out@;
            let line = cur;
            cur = String::new();
            cur_len = 0;
            out.push(line);
            assert(string_views(out@) =~= string_views(before) + seq![line@]);
            assert(string_views(out@) + inclusive_lines_from(
                v@.subrange(i + 1, v.len() as int),
                cur@,
            ) =~= string_views(before) + (seq![line@] + inclusive_lines_from(
                v@.subrange(i + 1, v.len() as int),
                Seq::empty(),
            )));
        } else {
            push_char(&mut cur, v[i]);
            cur_len = cur_len + 1;
        }
        i = i + 1;
    }
    if cur_len > 0 {
        let ghost before = out@;
        out.push(cur);
        assert(string_views(out@) =~= string_views(before) + seq![cur@]);
    } else {
        assert(string_views(out@) =~= string_views(out@) + Seq::<Seq<char>>::empty());
    }
    out
}

// ----------------------------------------------------------------------
// Fences.
// ----------------------------------------------------------------------

/// How many times `c` repeats at the start of `s`.
pub open spec fn run_length(s: Seq<char>, c: char) -> nat
    decreases s.len(),
{
    if s.len() > 0 && s[0] == c {
        1 + run_length(s.drop_first(), c)
    } else {
        0
    }
}

/// A line that opens a code block: after leading spaces, three or more
/// backticks or tildes, then the info text (trimmed).
pub open spec fn opening_fence(line: Seq<char>) -> Option<(char, nat, Seq<char>)> {
    let t = trim_start_char(line, ' ');
    if t.len() == 0 || (t[0] != '`' && t[0] != '~') {
        None
    } else if run_length(t, t[0]) < 3 {
        None
    } else {
        Some((t[0], run_length(t, t[0]), trim(t.subrange(run_length(t, t[0]) as int, t.len() as int))))
    }
}

/// A line that closes a block opened by `length` fence characters: after
/// leading spaces at least as many of them, then only whitespace. Fence
/// characters are ASCII, so the run ends on a character boundary.
pub open spec fn closing_fence(line: Seq<char>, marker: char, length: nat) -> bool {
    let t = trim_start_char(line, ' ');
    let n = run_length(t, marker);
    n >= length && trim(t.subrange(n as int, t.len() as int)).len() == 0
}

proof fn lemma_run_length(s: Seq<char>, c: char, i: int)
    requires
        0 <= i <= s.len(),
        forall|j: int| 0 <= j < i ==> #[trigger] s[j] == c,
        i == s.len() || s[i] != c,
    ensures
        run_length(s, c) == i,
    decreases i,
{
    if i > 0 {
        let t = s.drop_first();
        assert forall|j: int| 0 <= j < i - 1 implies #[trigger] t[j] == c by {
            assert(t[j] == s[j + 1]);
        }
        lemma_run_length(t, c, i - 1);
    }
}

/// Index of the first character after the leading spaces.
fn skip_spaces(v: &[char]) -> (a: usize)
    ensures
        a <= v.len(),
        v@.subrange(a as int, v.len() as int) == trim_start_char(v@, ' '),
{
    let n = v.len();
    let mut a: usize = 0;
    while a < n && v[a] == ' '
        invariant
            a <= n == v.len(),
            forall|j: int| 0 <= j < a ==> #[trigger] v@[j] == ' ',
        decreases n - a,
    {
        a = a + 1;
    }
    proof {
        lemma_trim_start_char_skip(v@, ' ', a as int);
        let t = v@.subrange(a as int, n as int);
        if t.len() > 0 {
            assert(t[0] == v@[a as int]);
        }
        assert(trim_start_char(t, ' ') == t);
    }
    a
}

/// End of the run of `c` that starts at `a`.
fn run_end(v: &[char], a: usize, c: char) -> (b: usize)
    requires
        a <= v.len(),
    ensures
        a <= b <= v.len(),
        run_length(v@.subrange(a as int, v.len() as int), c) == b - a,
{
    let n = v.len();
    let mut b: usize = a;
    while b < n && v[b] == c
        invariant
            a <= b <= n == v.len(),
            forall|j: int| a <= j < b ==> #[trigger] v@[j] == c,
        decreases n - b,
    {
        b = b + 1;
    }
    proof {
        let t = v@.subrange(a as int, n as int);
        assert forall|j: int| 0 <= j < b - a implies #[trigger] t[j] == c by {
            assert(t[j] == v@[a + j]);
        }
        if b < n {
            assert(t[b - a] == v@[b as int]);
        }
        lemma_run_length(t, c, b - a);
    }
    b
}

pub open spec fn fence_view(f: CodeFence) -> (char, nat, Seq<char>) {
    (f.marker, f.length as nat, f.info@)
}

pub fn parse_opening_fence(line: &str) -> (r: Option<CodeFence>)
    ensures
        match r {
            Some(f) => opening_fence(line@) == Some(fence_view(f)) && (f.marker == '`' || f.marker
                == '~'),
            None => opening_fence(line@) is None,
        },
{
    let v = chars_of(line);
    let n = v.len();
    let a = skip_spaces(v.as_slice());
    let ghost t = v@.subrange(a as int, n as int);
    if a == n {
        return None;
    }
    assert(t[0] == v@[a as int]);
    let marker = v[a];
    if marker != '`' && marker != '~' {
        return None;
    }
    let b = run_end(v.as_slice(), a, marker);
    let length = b - a;
    if length < 3 {
        return None;
    }
    let rest = crate::text::chars_range(v.as_slice(), b, n);
    let (x, y) = trim_bounds(rest.as_slice());
    assert(t.subrange(length as int, t.len() as int) =~= rest@);
    let info = string_from_range(rest.as_slice(), x, y);
    Some(CodeFence { marker, length, info })
}

pub fn is_closing_fence(line: &str, marker: char, opening_length: usize) -> (r: bool)
    requires
        (marker as u32) < 128,
    ensures
        r == closing_fence(line@, marker, opening_length as nat),
{
    let v = chars_of(line);
    let n = v.len();
    let a = skip_spaces(v.as_slice());
    let b = run_end(v.as_slice(), a, marker);
    let ghost t = v@.subrange(a as int, n as int);
    if b - a < opening_length {
        return false;
    }
    let rest = crate::text::chars_range(v.as_slice(), b, n);
    assert(t.subrange((b - a) as int, t.len() as int) =~= rest@);
    let (x, y) = trim_bounds(rest.as_slice());
    x == y
}

// ----------------------------------------------------------------------
// Segments.
// ----------------------------------------------------------------------

/// The lines joined back together.
pub open spec fn concat(lines: Seq<Seq<char>>) -> Seq<char>
    decreases lines.len(),
{
    if lines.len() == 0 {
        Seq::empty()
    } else {
        concat(lines.drop_last()) + lines.last()
    }
}

/// Index of the first line that closes the block, or the number of lines.
pub open spec fn first_closing(lines: Seq<Seq<char>>, marker: char, length: nat) -> nat
    decreases lines.len(),
{
    if lines.len() == 0 {
        0
    } else if closing_fence(lines[0], marker, length) {
        0
    } else {
        1 + first_closing(lines.drop_first(), marker, length)
    }
}

pub open spec fn text_segment(text: Seq<char>) -> Seq<(LiveSegmentKind, Seq<char>, Seq<char>)> {
    if text.len() == 0 {
        Seq::empty()
    } else {
        seq![(LiveSegmentKind::Text, text, Seq::empty())]
    }
}

pub proof fn lemma_first_closing_bound(lines: Seq<Seq<char>>, marker: char, length: nat)
    ensures
        first_closing(lines, marker, length) <= lines.len(),
    decreases lines.len(),
{
    if lines.len() > 0 {
        lemma_first_closing_bound(lines.drop_first(), marker, length);
    }
}

/// The segments of the remaining lines, with the plain text gathered so far:
/// plain lines gather into one text segment; an opening fence ends it and
/// starts a code block, which runs to its closing fence (dropped) or to the
/// end of the answer, and takes the language of its info text and code.
pub open spec fn segments_from(lines: Seq<Seq<char>>, text: Seq<char>) -> Seq<
    (LiveSegmentKind, Seq<char>, Seq<char>),
>
    decreases lines.len(),
{
    if lines.len() == 0 {
        text_segment(text)
    } else {
        match opening_fence(lines[0]) {
            None => segments_from(lines.drop_first(), text + lines[0]),
            Some(f) => {
                let body = lines.drop_first();
                let k = first_closing(body, f.0, f.1);
                let code = concat(body.subrange(0, k as int));
                let rest = if k < body.len() {
                    body.subrange((k + 1) as int, body.len() as int)
                } else {
                    Seq::empty()
                };
                text_segment(text) + seq![
                    (LiveSegmentKind::Code, code, code_language_of(f.2, code)),
                ] + segments_from(rest, Seq::empty())
            },
        }
    }
}

/// The segments of a streaming answer.
pub open spec fn live_segments_of(content: Seq<char>) -> Seq<(LiveSegmentKind, Seq<char>, Seq<char>)> {
    segments_from(inclusive_lines(content), Seq::empty())
}

/// Moves gathered plain text, when there is any, into a new text segment.
pub fn push_live_text_segment(segments: &mut Vec<LiveSegment>, text: &mut String)
    ensures
        segment_views(final(segments)@) == segment_views(old(segments)@) + text_segment(old(text)@),
        final(text)@ == Seq::<char>::empty(),
{
    if chars_of(text.as_str()).len() == 0 {
        assert(segment_views(segments@) =~= segment_views(segments@) + text_segment(text@));
        *text = String::new();
        return;
    }
    let content = text.clone();
    *text = String::new();
    let ghost before = segments@;
    segments.push(LiveSegment { kind: LiveSegmentKind::Text, content, language: String::new() });
    assert(segment_views(segments@) =~= segment_views(before) + text_segment(content@));
}

proof fn lemma_first_closing_at(lines: Seq<Seq<char>>, marker: char, length: nat, k: int)
    requires
        0 <= k <= lines.len(),
        forall|j: int| 0 <= j < k ==> !closing_fence(#[trigger] lines[j], marker, length),
        k == lines.len() || closing_fence(lines[k], marker, length),
    ensures
        first_closing(lines, marker, length) == k,
    decreases k,
{
    if k > 0 {
        let t = lines.drop_first();
        assert(!closing_fence(lines[0], marker, length));
        assert forall|j: int| 0 <= j < k - 1 implies !closing_fence(#[trigger] t[j], marker, length) by {
            assert(t[j] == lines[j + 1]);
        }
        if k < lines.len() {
            assert(t[k - 1] == lines[k]);
        }
        lemma_first_closing_at(t, marker, length, k - 1);
    }
}

pub fn live_segments(content: &str) -> (out: Vec<LiveSegment>)
    ensures
        segment_views(out@) == live_segments_of(content@),
{
    let lines = split_inclusive_lines(content);
    let ghost all = string_views(lines@);
    let mut segments: Vec<LiveSegment> = Vec::new();
    let mut text = String::new();
    let mut i: usize = 0;
    let n = lines.len();
    assert(all.subrange(0, n as int) =~= all);
    while i < n
        invariant
            i <= n == lines.len(),
            all == string_views(lines@),
            all == inclusive_lines(content@),
            segment_views(segments@) + segments_from(all.subrange(i as int, n as int), text@)
                == live_segments_of(content@),
        decreases n - i,
    {
        let ghost rest = all.subrange(i as int, n as int);
        assert(rest[0] == lines@[i as int]@);
        assert(rest.drop_first() =~= all.subrange(i + 1, n as int));
        match parse_opening_fence(lines[i].as_str()) {
            None => {
                push_str(&mut text, lines[i].as_str());
                i = i + 1;
            },
            Some(fence) => {
                let ghost seg0 = segment_views(segments@);
                let ghost text0 = text@;
                push_live_text_segment(&mut segments, &mut text);
                let start = i + 1;
                let ghost body = all.subrange(start as int, n as int);
                let mut code = String::new();
                let mut j: usize = start;
                assert(body.subrange(0, 0) =~= Seq::<Seq<char>>::empty());
                while j < n && !is_closing_fence(lines[j].as_str(), fence.marker, fence.length)
                    invariant
                        start <= j <= n == lines.len(),
                        fence.marker == '`' || fence.marker == '~',
                        all == string_views(lines@),
                        body == all.subrange(start as int, n as int),
                        code@ == concat(body.subrange(0, j - start)),
                        forall|x: int|
                            0 <= x < j - start ==> !closing_fence(
                                #[trigger] body[x],
                                fence.marker,
                                fence.length as nat,
                            ),
                    decreases n - j,
                {
                    assert(body[j - start] == lines@[j as int]@);
                    assert(body.subrange(0, j + 1 - start).drop_last() =~= body.subrange(
                        0,
                        j - start,
                    ));
                    push_str(&mut code, lines[j].as_str());
                    j = j + 1;
                }
                proof {
                    if j < n {
                        assert(body[j - start] == lines@[j as int]@);
                    }
                    lemma_first_closing_at(body, fence.marker, fence.length as nat, j - start);
                }
                let language = code_language(fence.info.as_str(), code.as_str());
                let ghost seg = (LiveSegmentKind::Code, code@, language@);
                let ghost before = segments@;
                segments.push(LiveSegment { kind: LiveSegmentKind::Code, content: code, language });
                assert(segment_views(segments@) =~= segment_views(before) + seq![seg]);
                if j < n {
                    i = j + 1;
                    assert(all.subrange(i as int, n as int) =~= body.subrange(
                        j - start + 1,
                        body.len() as int,
                    ));
                } else {
                    i = n;
                    assert(all.subrange(i as int, n as int) =~= Seq::<Seq<char>>::empty());
                }
                assert(segment_views(segments@) + segments_from(all.subrange(i as int, n as int), text@)
                    =~= seg0 + segments_from(rest, text0));
            },
        }
    }
    push_live_text_segment(&mut segments, &mut text);
    proof {
        assert(all.subrange(n as int, n as int) =~= Seq::<Seq<char>>::empty());
    }
    segments
}

proof fn lemma_concat_front(lines: Seq<Seq<char>>)
    requires
        lines.len() > 0,
    ensures
        concat(lines) == lines[0] + concat(lines.drop_first()),
    decreases lines.len(),
{
    if lines.len() == 1 {
        assert(lines.drop_last() =~= Seq::<Seq<char>>::empty());
        assert(lines.drop_first() =~= Seq::<Seq<char>>::empty());
        assert(concat(lines.drop_last()) == Seq::<char>::empty());
        assert(lines.last() == lines[0]);
        assert(concat(lines) =~= lines[0]);
        assert(concat(lines.drop_first()) == Seq::<char>::empty());
    } else {
        let init = lines.drop_last();
        lemma_concat_front(init);
        assert(init.drop_first() =~= lines.drop_first().drop_last());
        assert(lines.drop_first().last() == lines.last());
        assert(concat(lines) =~= lines[0] + concat(lines.drop_first()));
    }
}

proof fn lemma_concat_inclusive_lines(s: Seq<char>, cur: Seq<char>)
    ensures
        concat(inclusive_lines_from(s, cur)) == cur + s,
    decreases s.len(),
{
    if s.len() == 0 {
        if cur.len() == 0 {
            assert(cur + s =~= Seq::<char>::empty());
        } else {
            let l = seq![cur];
            assert(l.drop_last() =~= Seq::<Seq<char>>::empty());
            assert(concat(l.drop_last()) == Seq::<char>::empty());
            assert(l.last() == cur);
            assert(concat(l) =~= cur);
            assert(cur + s =~= cur);
        }
    } else if s[0] == '\n' {
        let rest = inclusive_lines_from(s.drop_first(), Seq::empty());
        lemma_concat_inclusive_lines(s.drop_first(), Seq::empty());
        let all = seq![cur.push('\n')] + rest;
        assert(all.drop_first() =~= rest);
        lemma_concat_front(all);
        assert(cur.push('\n') + (Seq::<char>::empty() + s.drop_first()) =~= cur + s);
    } else {
        lemma_concat_inclusive_lines(s.drop_first(), cur.push(s[0]));
        assert(cur.push(s[0]) + s.drop_first() =~= cur + s);
    }
}

proof fn lemma_plain_segments(lines: Seq<Seq<char>>, text: Seq<char>)
    requires
        forall|i: int| 0 <= i < lines.len() ==> opening_fence(#[trigger] lines[i]) is None,
    ensures
        segments_from(lines, text) == text_segment(text + concat(lines)),
    decreases lines.len(),
{
    if lines.len() == 0 {
        assert(text + concat(lines) =~= text);
    } else {
        assert(opening_fence(lines[0]) is None);
        let rest = lines.drop_first();
        assert forall|i: int| 0 <= i < rest.len() implies opening_fence(#[trigger] rest[i]) is None by {
            assert(rest[i] == lines[i + 1]);
        }
        lemma_plain_segments(rest, text + lines[0]);
        lemma_concat_front(lines);
        assert(text + lines[0] + concat(rest) =~= text + concat(lines));
    }
}

/// An answer with no line that opens a code block is shown as one text
/// segment holding all of it (none when it is empty).
pub proof fn lemma_plain_answer_is_one_segment(content: Seq<char>)
    requires
        forall|i: int|
            0 <= i < inclusive_lines(content).len() ==> opening_fence(
                #[trigger] inclusive_lines(content)[i],
            ) is None,
    ensures
        live_segments_of(content) == text_segment(content),
{
    lemma_plain_segments(inclusive_lines(content), Seq::empty());
    lemma_concat_inclusive_lines(content, Seq::empty());
    assert(Seq::<char>::empty() + concat(inclusive_lines(content)) =~= content);
}

/// The marker before an item of a Markdown list: in an ordered list its number
/// and a dot, counting from the list's start (from 1 when the start is 0); in
/// a bullet list a dash.
pub open spec fn list_marker_of(ordered: bool, start: nat, index: nat) -> Seq<char> {
    if ordered {
        crate::text::decimal((if start == 0 {
            1
        } else {
            start
        }) + index) + "."@
    } else {
        "-"@
    }
}

pub fn list_marker_text(ordered: bool, start: usize, index: usize) -> (r: String)
    requires
        !ordered || (if start == 0 {
            1
        } else {
            start as int
        }) + index <= usize::MAX,
    ensures
        r@ == list_marker_of(ordered, start as nat, index as nat),
{
    if ordered {
        let first: usize = if start == 0 {
            1
        } else {
            start
        };
        let mut r = crate::text::decimal_string((first + index) as u64);
        crate::text::push_str(&mut r, ".");
        r
    } else {
        crate::text::to_owned_string("-")
    }
}

} // verus!
