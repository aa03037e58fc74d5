//! Keyboard shortcuts: their definitions, the text form users type, and the
//! normalized labels the preferences store.
use vstd::prelude::*;

use crate::text::{
    chars_eq, chars_of, is_ascii_alpha, is_ascii_digit, lower, lower_chars, lower_char, push_char,
    push_str, split, split_from, split_chars, no_char, parts_without, string_from_chars, string_views, to_owned_string, trim,
    trim_bounds, upper, upper_char, join, join_strings, char_to_upper, string_from_range,
    char_is_ws, is_ws, lemma_trim_start_skip, lemma_trim_end_skip, str_eq,
};

verus! {

pub const SETTINGS_SHORTCUTS: &'static str = "shortcuts";

#[derive(Clone, Copy)]
pub struct ShortcutDefinition {
    pub id: &'static str,
    pub title: &'static str,
    pub description: &'static str,
    pub default: &'static str,
}

#[derive(Clone, Debug, PartialEq, Eq, Hash)]
pub struct ShortcutChord {
    ctrl: bool,
    alt: bool,
    shift: bool,
    super_key: bool,
    key: String,
}

/// A chord as its modifiers and key text.
pub struct ChordView {
    pub ctrl: bool,
    pub alt: bool,
    pub shift: bool,
    pub super_key: bool,
    pub key: Seq<char>,
}

impl View for ShortcutChord {
    type V = ChordView;

    closed spec fn view(&self) -> ChordView {
        ChordView {
            ctrl: self.ctrl,
            alt: self.alt,
            shift: self.shift,
            super_key: self.super_key,
            key: self.key@,
        }
    }
}

// ----------------------------------------------------------------------
// The shortcut definitions.
// ----------------------------------------------------------------------

pub open spec fn definition_id(i: int) -> Seq<char> {
    if i == 0 {
        "new-conversation"@
    } else if i == 1 {
        "focus-message"@
    } else if i == 2 {
        "search-chats"@
    } else if i == 3 {
        "show-models"@
    } else if i == 4 {
        "refresh-models"@
    } else if i == 5 {
        "preferences"@
    } else if i == 6 {
        "toggle-sidebar"@
    } else {
        "stop-generation"@
    }
}

pub open spec fn definition_ids() -> Seq<Seq<char>> {
    Seq::new(8, |i: int| definition_id(i))
}

pub open spec fn definition_titles() -> Seq<Seq<char>> {
    seq![
        "New Conversation"@,
        "Focus Message"@,
        "Search Chats"@,
        "Show Models"@,
        "Refresh Models"@,
        "Preferences"@,
        "Toggle Sidebar"@,
        "Stop Generation"@,
    ]
}

pub open spec fn definition_defaults() -> Seq<Seq<char>> {
    seq!["Ctrl+N"@, "Ctrl+L"@, "Ctrl+F"@, "Ctrl+M"@, "F5"@, "Ctrl+,"@, "F9"@, "Esc"@]
}

pub open spec fn definition_descriptions() -> Seq<Seq<char>> {
    seq![
        "Create a new chat and move to the composer."@,
        "Move keyboard focus to the message composer."@,
        "Move keyboard focus to the chat search field."@,
        "Open the model manager."@,
        "Refresh the active provider model list."@,
        "Open application preferences."@,
        "Show or hide the conversation sidebar."@,
        "Cancel the active response."@,
    ]
}

pub open spec fn definitions_ok(d: Seq<ShortcutDefinition>) -> bool {
    &&& d.len() == 8
    &&& forall|i: int| 0 <= i < 8 ==> (#[trigger] d[i]).id@ == definition_ids()[i]
    &&& forall|i: int| 0 <= i < 8 ==> (#[trigger] d[i]).title@ == definition_titles()[i]
    &&& forall|i: int| 0 <= i < 8 ==> (#[trigger] d[i]).description@ == definition_descriptions()[i]
    &&& forall|i: int| 0 <= i < 8 ==> (#[trigger] d[i]).default@ == definition_defaults()[i]
}

fn definition(
    id: &'static str,
    title: &'static str,
    description: &'static str,
    default: &'static str,
) -> (d: ShortcutDefinition)
    ensures
        d.id == id,
        d.title == title,
        d.description == description,
        d.default == default,
{
    ShortcutDefinition { id, title, description, default }
}

/// The shortcuts the application offers, with their default chords.
pub fn definitions() -> (r: Vec<ShortcutDefinition>)
    ensures
        definitions_ok(r@),
{
    let mut d: Vec<ShortcutDefinition> = Vec::new();
    d.push(
        definition(
            "new-conversation",
            "New Conversation",
            "Create a new chat and move to the composer.",
            "Ctrl+N",
        ),
    );
    d.push(
        definition(
            "focus-message",
            "Focus Message",
            "Move keyboard focus to the message composer.",
            "Ctrl+L",
        ),
    );
    d.push(
        definition(
            "search-chats",
            "Search Chats",
            "Move keyboard focus to the chat search field.",
            "Ctrl+F",
        ),
    );
    d.push(definition("show-models", "Show Models", "Open the model manager.", "Ctrl+M"));
    d.push(
        definition(
            "refresh-models",
            "Refresh Models",
            "Refresh the active provider model list.",
            "F5",
        ),
    );
    d.push(definition("preferences", "Preferences", "Open application preferences.", "Ctrl+,"));
    d.push(
        definition(
            "toggle-sidebar",
            "Toggle Sidebar",
            "Show or hide the conversation sidebar.",
            "F9",
        ),
    );
    d.push(definition("stop-generation", "Stop Generation", "Cancel the active response.", "Esc"));
    d
}

pub open spec fn pair_views(v: Seq<(String, String)>) -> Seq<(Seq<char>, Seq<char>)> {
    v.map_values(|p: (String, String)| (p.0@, p.1@))
}

/// The default chord text of every shortcut, by identifier, in definition order.
pub open spec fn default_values() -> Seq<(Seq<char>, Seq<char>)> {
    Seq::new(8, |i: int| (definition_ids()[i], definition_defaults()[i]))
}

/// The default chords, by shortcut identifier.
pub fn defaults() -> (r: Vec<(String, String)>)
    ensures
        pair_views(r@) == default_values(),
{
    let defs = definitions();
    let mut out: Vec<(String, String)> = Vec::new();
    let mut i: usize = 0;
    while i < defs.len()
        invariant
            i <= defs.len() == 8,
            definitions_ok(defs@),
            pair_views(out@) == default_values().subrange(0, i as int),
        decreases defs.len() - i,
    {
        assert(defs@[i as int].id@ == definition_ids()[i as int]);
        assert(defs@[i as int].default@ == definition_defaults()[i as int]);
        let ghost pv = pair_views(out@);
        let entry = (to_owned_string(defs[i].id), to_owned_string(defs[i].default));
        assert((entry.0@, entry.1@) == default_values()[i as int]);
        out.push(entry);
        assert(pair_views(out@) =~= pv.push((entry.0@, entry.1@)));
        assert(default_values().subrange(0, i + 1) =~= default_values().subrange(0, i as int).push(
            default_values()[i as int],
        ));
        i = i + 1;
    }
    assert(default_values().subrange(0, 8) =~= default_values());
    out
}

// ----------------------------------------------------------------------
// Reading a chord.
// ----------------------------------------------------------------------

/// The state of the scan that turns `<Ctrl>a` into `Ctrl+a`.
pub open spec fn bracket_scan(
    s: Seq<char>,
    out: Seq<char>,
    bracket: Seq<char>,
    in_bracket: bool,
) -> (Seq<char>, bool)
    decreases s.len(),
{
    if s.len() == 0 {
        (out, in_bracket)
    } else {
        let c = s[0];
        let rest = s.drop_first();
        if c == '<' && !in_bracket {
            bracket_scan(rest, out, Seq::empty(), true)
        } else if c == '>' && in_bracket {
            bracket_scan(rest, out + bracket + seq!['+'], bracket, false)
        } else if in_bracket {
            bracket_scan(rest, out, bracket.push(c), true)
        } else {
            bracket_scan(rest, out.push(c), bracket, false)
        }
    }
}

/// The trimmed text with every `<Modifier>` written as `Modifier+`; the
/// trimmed text itself when a bracket is left open.
pub open spec fn normalized_input(value: Seq<char>) -> Seq<char> {
    let t = trim(value);
    let scan = bracket_scan(t, Seq::empty(), Seq::empty(), false);
    if scan.1 {
        t
    } else {
        scan.0
    }
}

fn append_chars(out: &mut Vec<char>, src: &Vec<char>)
    ensures
        final(out)@ == old(out)@ + src@,
{
    let ghost before = out@;
    let mut j: usize = 0;
    while j < src.len()
        invariant
            j <= src.len(),
            out@ == before + src@.subrange(0, j as int),
        decreases src.len() - j,
    {
        out.push(src[j]);
        j = j + 1;
        assert(out@ =~= before + src@.subrange(0, j as int));
    }
    assert(src@.subrange(0, src.len() as int) =~= src@);
}

fn normalize_input(value: &str) -> (r: Vec<char>)
    ensures
        r@ == normalized_input(value@),
{
    let v = chars_of(value);
    let (a, b) = trim_bounds(v.as_slice());
    let mut output: Vec<char> = Vec::new();
    let mut bracket: Vec<char> = Vec::new();
    let mut in_bracket = false;
    let ghost t = v@.subrange(a as int, b as int);
    let mut i: usize = a;
    while i < b
        invariant
            a <= i <= b <= v.len(),
            t == v@.subrange(a as int, b as int),
            bracket_scan(t, Seq::empty(), Seq::empty(), false) == bracket_scan(
                v@.subrange(i as int, b as int),
                output@,
                bracket@,
                in_bracket,
            ),
        decreases b - i,
    {
        let c = v[i];
        let ghost rest = v@.subrange(i as int, b as int);
        assert(rest.drop_first() =~= v@.subrange(i + 1, b as int));
        assert(rest[0] == c);
        if c == '<' && !in_bracket {
            in_bracket = true;
            bracket = Vec::new();
        } else if c == '>' && in_bracket {
            let ghost before = output@;
            append_chars(&mut output, &bracket);
            output.push('+');
            assert(output@ =~= before + bracket@ + seq!['+']);
            in_bracket = false;
        } else if in_bracket {
            bracket.push(c);
        } else {
            output.push(c);
        }
        i = i + 1;
    }
    assert(v@.subrange(b as int, b as int) =~= Seq::<char>::empty());
    if in_bracket {
        let mut t2: Vec<char> = Vec::new();
        let mut k: usize = a;
        while k < b
            invariant
                a <= k <= b <= v.len(),
                t2@ == v@.subrange(a as int, k as int),
            decreases b - k,
        {
            t2.push(v[k]);
            k = k + 1;
            assert(t2@ =~= v@.subrange(a as int, k as int));
        }
        t2
    } else {
        output
    }
}

/// The key a known key name stands for.
pub open spec fn named_key(l: Seq<char>) -> Option<Seq<char>> {
    if l == "escape"@ || l == "esc"@ {
        Some("Esc"@)
    } else if l == "return"@ || l == "enter"@ {
        Some("Enter"@)
    } else if l == "space"@ {
        Some("Space"@)
    } else if l == "tab"@ {
        Some("Tab"@)
    } else if l == "backspace"@ {
        Some("Backspace"@)
    } else if l == "delete"@ || l == "del"@ {
        Some("Delete"@)
    } else if l == "insert"@ || l == "ins"@ {
        Some("Insert"@)
    } else if l == "home"@ {
        Some("Home"@)
    } else if l == "end"@ {
        Some("End"@)
    } else if l == "pageup"@ || l == "page-up"@ || l == "page up"@ {
        Some("PageUp"@)
    } else if l == "pagedown"@ || l == "page-down"@ || l == "page down"@ {
        Some("PageDown"@)
    } else if l == "up"@ || l == "arrowup"@ || l == "arrow-up"@ {
        Some("Up"@)
    } else if l == "down"@ || l == "arrowdown"@ || l == "arrow-down"@ {
        Some("Down"@)
    } else if l == "left"@ || l == "arrowleft"@ || l == "arrow-left"@ {
        Some("Left"@)
    } else if l == "right"@ || l == "arrowright"@ || l == "arrow-right"@ {
        Some("Right"@)
    } else {
        None
    }
}

/// The value of decimal digits.
pub open spec fn digits_value(d: Seq<char>) -> nat
    decreases d.len(),
{
    if d.len() == 0 {
        0
    } else {
        digits_value(d.drop_last()) * 10 + ((d.last() as u32) - 48) as nat
    }
}

pub open spec fn all_digits(d: Seq<char>) -> bool {
    forall|i: int| 0 <= i < d.len() ==> is_ascii_digit(#[trigger] d[i])
}

/// `u8::from_str`: an optional `+`, then decimal digits worth at most 255.
pub open spec fn u8_from_text(r: Seq<char>) -> Option<nat> {
    let d = if r.len() > 0 && r[0] == '+' {
        r.drop_first()
    } else {
        r
    };
    if d.len() == 0 || !all_digits(d) || digits_value(d) > 255 {
        None
    } else {
        Some(digits_value(d))
    }
}

/// `f1` to `f24` (already in lowercase).
pub open spec fn function_key(l: Seq<char>) -> bool {
    l.len() > 0 && l[0] == 'f' && (u8_from_text(l.drop_first()) matches Some(n) && 1 <= n <= 24)
}

pub open spec fn character_key(c: char) -> Seq<char> {
    if is_ascii_alpha(c) {
        seq![upper_char(c)]
    } else {
        seq![c]
    }
}

/// The canonical name of a key, or why it is refused.
pub open spec fn key_outcome(p: Seq<char>) -> core::result::Result<Seq<char>, Seq<char>> {
    let l = lower(p);
    match named_key(l) {
        Some(k) => Ok(k),
        None => if function_key(l) {
            Ok(upper(l))
        } else if p.len() == 1 {
            Ok(character_key(p[0]))
        } else {
            Err("Unsupported key: "@ + p)
        },
    }
}

fn eq_lit(v: &[char], lit: &str) -> (r: bool)
    ensures
        r == (v@ == lit@),
{
    let l = chars_of(lit);
    chars_eq(v, l.as_slice())
}

fn named_key_exec(l: &[char]) -> (r: Option<&'static str>)
    ensures
        match named_key(l@) {
            Some(k) => r matches Some(s) && s@ == k,
            None => r is None,
        },
{
    if eq_lit(l, "escape") || eq_lit(l, "esc") {
        Some("Esc")
    } else if eq_lit(l, "return") || eq_lit(l, "enter") {
        Some("Enter")
    } else if eq_lit(l, "space") {
        Some("Space")
    } else if eq_lit(l, "tab") {
        Some("Tab")
    } else if eq_lit(l, "backspace") {
        Some("Backspace")
    } else if eq_lit(l, "delete") || eq_lit(l, "del") {
        Some("Delete")
    } else if eq_lit(l, "insert") || eq_lit(l, "ins") {
        Some("Insert")
    } else if eq_lit(l, "home") {
        Some("Home")
    } else if eq_lit(l, "end") {
        Some("End")
    } else if eq_lit(l, "pageup") || eq_lit(l, "page-up") || eq_lit(l, "page up") {
        Some("PageUp")
    } else if eq_lit(l, "pagedown") || eq_lit(l, "page-down") || eq_lit(l, "page down") {
        Some("PageDown")
    } else if eq_lit(l, "up") || eq_lit(l, "arrowup") || eq_lit(l, "arrow-up") {
        Some("Up")
    } else if eq_lit(l, "down") || eq_lit(l, "arrowdown") || eq_lit(l, "arrow-down") {
        Some("Down")
    } else if eq_lit(l, "left") || eq_lit(l, "arrowleft") || eq_lit(l, "arrow-left") {
        Some("Left")
    } else if eq_lit(l, "right") || eq_lit(l, "arrowright") || eq_lit(l, "arrow-right") {
        Some("Right")
    } else {
        None
    }
}

proof fn lemma_digits_value_prefix(d: Seq<char>, i: int)
    requires
        0 <= i <= d.len(),
    ensures
        digits_value(d.subrange(0, i)) <= digits_value(d),
    decreases d.len() - i,
{
    if i < d.len() {
        lemma_digits_value_prefix(d, i + 1);
        assert(d.subrange(0, i + 1).drop_last() =~= d.subrange(0, i));
    } else {
        assert(d.subrange(0, i) =~= d);
    }
}

/// `u8::from_str` of a part of a key name.
fn u8_from_chars(r: &[char], start: usize) -> (n: Option<u16>)
    requires
        start <= r.len(),
    ensures
        match u8_from_text(r@.subrange(start as int, r.len() as int)) {
            Some(v) => n == Some(v as u16),
            None => n is None,
        },
{
    let ghost whole = r@.subrange(start as int, r.len() as int);
    let mut i = start;
    if i < r.len() && r[i] == '+' {
        i = i + 1;
    }
    let ghost d = r@.subrange(i as int, r.len() as int);
    assert(d =~= if whole.len() > 0 && whole[0] == '+' {
        whole.drop_first()
    } else {
        whole
    });
    if i == r.len() {
        return None;
    }
    let mut value: u16 = 0;
    let mut k = i;
    while k < r.len()
        invariant
            i <= k <= r.len(),
            i < r.len(),
            d == r@.subrange(i as int, r.len() as int),
            u8_from_text(r@.subrange(start as int, r.len() as int)) == (if d.len() == 0 || !all_digits(d)
                || digits_value(d) > 255 {
                None
            } else {
                Some(digits_value(d))
            }),
            value <= 255,
            value == digits_value(r@.subrange(i as int, k as int)),
            all_digits(r@.subrange(i as int, k as int)),
        decreases r.len() - k,
    {
        let c = r[k];
        if !('0' <= c && c <= '9') {
            assert(d[k - i] == c);
            assert(!all_digits(d));
            return None;
        }
        let ghost before = r@.subrange(i as int, k as int);
        let digit: u16 = (c as u32 - 48) as u16;
        let next: u16 = value * 10 + digit;
        k = k + 1;
        assert(r@.subrange(i as int, k as int).drop_last() =~= before);
        assert(all_digits(r@.subrange(i as int, k as int)));
        if next > 255 {
            proof {
                lemma_digits_value_prefix(d, k - i);
                assert(d.subrange(0, k - i) =~= r@.subrange(i as int, k as int));
            }
            return None;
        }
        value = next;
    }
    assert(r@.subrange(i as int, k as int) =~= d);
    Some(value)
}

fn is_function_key(l: &[char]) -> (r: bool)
    ensures
        r == function_key(l@),
{
    if l.len() == 0 || l[0] != 'f' {
        return false;
    }
    assert(l@.drop_first() =~= l@.subrange(1, l.len() as int));
    match u8_from_chars(l, 1) {
        Some(n) => 1 <= n && n <= 24,
        None => false,
    }
}

fn upper_vec(v: &[char]) -> (r: Vec<char>)
    ensures
        r@ == upper(v@),
{
    let mut out: Vec<char> = Vec::new();
    let mut i: usize = 0;
    while i < v.len()
        invariant
            i <= v.len(),
            out@ == upper(v@.subrange(0, i as int)),
        decreases v.len() - i,
    {
        out.push(char_to_upper(v[i]));
        i = i + 1;
        assert(out@ =~= upper(v@.subrange(0, i as int)));
    }
    assert(v@.subrange(0, v.len() as int) =~= v@);
    out
}

fn normalize_character_key(c: char) -> (r: String)
    ensures
        r@ == character_key(c),
{
    let mut out = String::new();
    if ('a' <= c && c <= 'z') || ('A' <= c && c <= 'Z') {
        push_char(&mut out, char_to_upper(c));
    } else {
        push_char(&mut out, c);
    }
    out
}

/// The canonical name of one key of a shortcut.
pub fn normalize_key(value: &str) -> (r: core::result::Result<String, String>)
    ensures
        match key_outcome(value@) {
            Ok(k) => r matches Ok(s) && s@ == k,
            Err(m) => r matches Err(s) && s@ == m,
        },
{
    let v = chars_of(value);
    let l = lower_chars(v.as_slice());
    match named_key_exec(l.as_slice()) {
        Some(name) => Ok(to_owned_string(name)),
        None => {
            if is_function_key(l.as_slice()) {
                let u = upper_vec(l.as_slice());
                Ok(string_from_chars(u.as_slice()))
            } else if v.len() == 1 {
                Ok(normalize_character_key(v[0]))
            } else {
                let mut message = to_owned_string("Unsupported key: ");
                push_str(&mut message, value);
                Err(message)
            }
        },
    }
}

pub open spec fn requires_modifier_spec(key: Seq<char>) -> bool {
    key == "Space"@ || key.len() == 1
}

/// Whether a key is printable and so needs a modifier.
pub fn requires_modifier(key: &str) -> (r: bool)
    ensures
        r == requires_modifier_spec(key@),
{
    str_eq(key, "Space") || chars_of(key).len() == 1
}

/// What a part of a shortcut has given so far.
pub struct ChordParts {
    pub ctrl: bool,
    pub alt: bool,
    pub shift: bool,
    pub super_key: bool,
    pub key: Option<Seq<char>>,
}

pub open spec fn is_ctrl_name(l: Seq<char>) -> bool {
    l == "ctrl"@ || l == "control"@ || l == "primary"@
}

pub open spec fn is_alt_name(l: Seq<char>) -> bool {
    l == "alt"@ || l == "option"@
}

pub open spec fn is_shift_name(l: Seq<char>) -> bool {
    l == "shift"@
}

pub open spec fn is_super_name(l: Seq<char>) -> bool {
    l == "super"@ || l == "meta"@ || l == "cmd"@ || l == "command"@
}

/// Reading the `+`-separated parts of a shortcut, left to right.
pub open spec fn read_parts(parts: Seq<Seq<char>>, st: ChordParts) -> core::result::Result<ChordParts, Seq<char>>
    decreases parts.len(),
{
    if parts.len() == 0 {
        Ok(st)
    } else {
        let p = trim(parts[0]);
        let l = lower(p);
        let rest = parts.drop_first();
        if p.len() == 0 {
            Err("Shortcut parts cannot be empty"@)
        } else if is_ctrl_name(l) {
            read_parts(rest, ChordParts { ctrl: true, ..st })
        } else if is_alt_name(l) {
            read_parts(rest, ChordParts { alt: true, ..st })
        } else if is_shift_name(l) {
            read_parts(rest, ChordParts { shift: true, ..st })
        } else if is_super_name(l) {
            read_parts(rest, ChordParts { super_key: true, ..st })
        } else {
            match key_outcome(p) {
                Err(m) => Err(m),
                Ok(k) => if st.key is Some {
                    Err("Use only one key per shortcut"@)
                } else {
                    read_parts(rest, ChordParts { key: Some(k), ..st })
                },
            }
        }
    }
}

pub open spec fn no_parts() -> ChordParts {
    ChordParts { ctrl: false, alt: false, shift: false, super_key: false, key: None }
}

/// What a typed shortcut means: nothing (blank), a chord, or why it is refused.
pub open spec fn parse_outcome(value: Seq<char>) -> core::result::Result<Option<ChordView>, Seq<char>> {
    let v = normalized_input(value);
    if v.len() == 0 {
        Ok(None)
    } else {
        match read_parts(split(v, '+'), no_parts()) {
            Err(m) => Err(m),
            Ok(st) => match st.key {
                None => Err("Add a key to the shortcut"@),
                Some(k) => if !st.ctrl && !st.alt && !st.shift && !st.super_key
                    && requires_modifier_spec(k) {
                    Err("Use Ctrl, Alt, Shift or Super with printable shortcuts"@)
                } else {
                    Ok(
                        Some(
                            ChordView {
                                ctrl: st.ctrl,
                                alt: st.alt,
                                shift: st.shift,
                                super_key: st.super_key,
                                key: k,
                            },
                        ),
                    )
                },
            },
        }
    }
}

/// Reads a typed shortcut such as `Ctrl+Shift+K` or `<Ctrl>k`.
pub fn parse(value: &str) -> (r: core::result::Result<Option<ShortcutChord>, String>)
    ensures
        match parse_outcome(value@) {
            Ok(None) => r matches Ok(None),
            Ok(Some(c)) => r matches Ok(Some(chord)) && chord@ == c,
            Err(m) => r matches Err(s) && s@ == m,
        },
{
    let v = normalize_input(value);
    if v.len() == 0 {
        return Ok(None);
    }
    let parts = split_chars(v.as_slice(), '+');
    let mut ctrl = false;
    let mut alt = false;
    let mut shift = false;
    let mut super_key = false;
    let mut key: Option<String> = None;
    let ghost all = string_views(parts@);
    let mut i: usize = 0;
    assert(all.subrange(0, all.len() as int) =~= all);
    while i < parts.len()
        invariant
            i <= parts.len(),
            v@ == normalized_input(value@),
            v@.len() > 0,
            all == string_views(parts@),
            all == split(v@, '+'),
            read_parts(all, no_parts()) == read_parts(
                all.subrange(i as int, all.len() as int),
                ChordParts {
                    ctrl,
                    alt,
                    shift,
                    super_key,
                    key: match key {
                        Some(k) => Some(k@),
                        None => None,
                    },
                },
            ),
        decreases parts.len() - i,
    {
        let ghost rest = all.subrange(i as int, all.len() as int);
        assert(rest.drop_first() =~= all.subrange(i + 1, all.len() as int));
        assert(rest[0] == parts@[i as int]@);
        let pv = chars_of(parts[i].as_str());
        let (a, b) = trim_bounds(pv.as_slice());
        if a == b {
            return Err(to_owned_string("Shortcut parts cannot be empty"));
        }
        let part = string_from_range(pv.as_slice(), a, b);
        let pc = chars_of(part.as_str());
        let l = lower_chars(pc.as_slice());
        if eq_lit(l.as_slice(), "ctrl") || eq_lit(l.as_slice(), "control") || eq_lit(
            l.as_slice(),
            "primary",
        ) {
            ctrl = true;
        } else if eq_lit(l.as_slice(), "alt") || eq_lit(l.as_slice(), "option") {
            alt = true;
        } else if eq_lit(l.as_slice(), "shift") {
            shift = true;
        } else if eq_lit(l.as_slice(), "super") || eq_lit(l.as_slice(), "meta") || eq_lit(
            l.as_slice(),
            "cmd",
        ) || eq_lit(l.as_slice(), "command") {
            super_key = true;
        } else {
            let normalized = match normalize_key(part.as_str()) {
                Ok(k) => k,
                Err(m) => return Err(m),
            };
            if key.is_some() {
                return Err(to_owned_string("Use only one key per shortcut"));
            }
            key = Some(normalized);
        }
        i = i + 1;
    }
    assert(all.subrange(parts.len() as int, all.len() as int) =~= Seq::<Seq<char>>::empty());
    let key = match key {
        Some(key) => key,
        None => return Err(to_owned_string("Add a key to the shortcut")),
    };
    if !ctrl && !alt && !shift && !super_key && requires_modifier(key.as_str()) {
        return Err(to_owned_string("Use Ctrl, Alt, Shift or Super with printable shortcuts"));
    }
    Ok(Some(ShortcutChord { ctrl, alt, shift, super_key, key }))
}

// ----------------------------------------------------------------------
// Labels.
// ----------------------------------------------------------------------

pub open spec fn label_parts(c: ChordView) -> Seq<Seq<char>> {
    (if c.ctrl {
        seq!["Ctrl"@]
    } else {
        Seq::empty()
    }) + (if c.alt {
        seq!["Alt"@]
    } else {
        Seq::empty()
    }) + (if c.shift {
        seq!["Shift"@]
    } else {
        Seq::empty()
    }) + (if c.super_key {
        seq!["Super"@]
    } else {
        Seq::empty()
    }) + seq![c.key]
}

/// The label of a chord: its modifiers in a fixed order, then the key, joined by `+`.
pub open spec fn chord_label(c: ChordView) -> Seq<char> {
    join(label_parts(c), "+"@)
}

impl ShortcutChord {
    pub fn label(&self) -> (r: String)
        ensures
            r@ == chord_label(self@),
    {
        let mut parts: Vec<String> = Vec::new();
        if self.ctrl {
            parts.push(to_owned_string("Ctrl"));
        }
        if self.alt {
            parts.push(to_owned_string("Alt"));
        }
        if self.shift {
            parts.push(to_owned_string("Shift"));
        }
        if self.super_key {
            parts.push(to_owned_string("Super"));
        }
        parts.push(self.key.clone());
        assert(string_views(parts@) =~= label_parts(self@));
        join_strings(parts.as_slice(), "+")
    }

    fn same(&self, other: &ShortcutChord) -> (r: bool)
        ensures
            r == (self@ == other@),
    {
        self.ctrl == other.ctrl && self.alt == other.alt && self.shift == other.shift
            && self.super_key == other.super_key && str_eq(self.key.as_str(), other.key.as_str())
    }
}

// ----------------------------------------------------------------------
// Stored values.
// ----------------------------------------------------------------------

/// The text stored for a key: the first entry with that key.
pub open spec fn lookup(values: Seq<(Seq<char>, Seq<char>)>, key: Seq<char>) -> Option<Seq<char>>
    decreases values.len(),
{
    if values.len() == 0 {
        None
    } else if values[0].0 == key {
        Some(values[0].1)
    } else {
        lookup(values.drop_first(), key)
    }
}

fn lookup_exec(values: &Vec<(String, String)>, key: &str) -> (r: Option<usize>)
    ensures
        match lookup(pair_views(values@), key@) {
            Some(v) => r matches Some(i) && i < values.len() && values@[i as int].1@ == v,
            None => r is None,
        },
{
    let ghost all = pair_views(values@);
    let mut i: usize = 0;
    assert(all.subrange(0, all.len() as int) =~= all);
    while i < values.len()
        invariant
            i <= values.len(),
            all == pair_views(values@),
            lookup(all, key@) == lookup(all.subrange(i as int, all.len() as int), key@),
        decreases values.len() - i,
    {
        let ghost rest = all.subrange(i as int, all.len() as int);
        assert(rest.drop_first() =~= all.subrange(i + 1, all.len() as int));
        assert(rest[0] == (values@[i as int].0@, values@[i as int].1@));
        if str_eq(values[i].0.as_str(), key) {
            return Some(i);
        }
        i = i + 1;
    }
    assert(all.subrange(values.len() as int, all.len() as int) =~= Seq::<(Seq<char>, Seq<char>)>::empty());
    None
}

pub open spec fn raw_value(values: Seq<(Seq<char>, Seq<char>)>, i: int) -> Seq<char> {
    match lookup(values, definition_ids()[i]) {
        Some(v) => v,
        None => definition_defaults()[i],
    }
}

pub open spec fn seen_chord(seen: Seq<ChordView>, c: ChordView) -> bool {
    exists|j: int| 0 <= j < seen.len() && #[trigger] seen[j] == c
}

/// Normalizing shortcuts `i..8`, given the chords already taken.
pub open spec fn normalize_from(
    values: Seq<(Seq<char>, Seq<char>)>,
    i: nat,
    seen: Seq<ChordView>,
) -> core::result::Result<Seq<(Seq<char>, Seq<char>)>, Seq<char>>
    decreases 8 - i,
{
    if i >= 8 {
        Ok(Seq::empty())
    } else {
        match parse_outcome(raw_value(values, i as int)) {
            Err(m) => Err(m),
            Ok(None) => match normalize_from(values, i + 1, seen) {
                Err(m) => Err(m),
                Ok(rest) => Ok(seq![(definition_ids()[i as int], Seq::<char>::empty())] + rest),
            },
            Ok(Some(c)) => if seen_chord(seen, c) {
                Err(definition_titles()[i as int] + " uses a shortcut that is already assigned"@)
            } else {
                match normalize_from(values, i + 1, seen.push(c)) {
                    Err(m) => Err(m),
                    Ok(rest) => Ok(seq![(definition_ids()[i as int], chord_label(c))] + rest),
                }
            },
        }
    }
}

/// The normalized label of every shortcut, in definition order, or why the
/// values cannot be used. A missing value falls back to the default; a blank
/// one leaves the shortcut unassigned; two shortcuts may not share a chord.
pub open spec fn normalized_values(values: Seq<(Seq<char>, Seq<char>)>) -> core::result::Result<Seq<(Seq<char>, Seq<char>)>, Seq<char>> {
    normalize_from(values, 0, Seq::empty())
}

fn find_chord(chords: &Vec<ShortcutChord>, chord: &ShortcutChord) -> (r: Option<usize>)
    ensures
        match r {
            Some(k) => k < chords.len() && chords@[k as int]@ == chord@,
            None => !seen_chord(chords@.map_values(|c: ShortcutChord| c@), chord@),
        },
{
    let ghost seen = chords@.map_values(|c: ShortcutChord| c@);
    let mut k: usize = 0;
    while k < chords.len()
        invariant
            k <= chords.len(),
            seen == chords@.map_values(|c: ShortcutChord| c@),
            forall|j: int| 0 <= j < k ==> seen[j] != chord@,
        decreases chords.len() - k,
    {
        if chords[k].same(chord) {
            return Some(k);
        }
        k = k + 1;
    }
    None
}

/// Normalizes stored shortcut values.
pub fn normalize_values(values: &Vec<(String, String)>) -> (r: core::result::Result<Vec<(String, String)>, String>)
    ensures
        match normalized_values(pair_views(values@)) {
            Ok(v) => r matches Ok(out) && pair_views(out@) == v,
            Err(m) => r matches Err(s) && s@ == m,
        },
        r matches Ok(out) ==> forall|k1: int, k2: int|
            0 <= k1 < k2 < out.len() && pair_views(out@)[k1].1.len() > 0
                ==> #[trigger] pair_views(out@)[k1].1 != #[trigger] pair_views(out@)[k2].1,
        (exists|k1: int, k2: int| 0 <= k1 < k2 < 8 && #[trigger] same_chord(pair_views(values@), k1, k2))
            ==> r is Err,
{
    proof {
        normalized_values_law(pair_views(values@));
    }
    let defs = definitions();
    let ghost vals = pair_views(values@);
    let mut normalized: Vec<(String, String)> = Vec::new();
    let mut chords: Vec<ShortcutChord> = Vec::new();
    let mut i: usize = 0;
    assert(chords@.map_values(|c: ShortcutChord| c@) =~= Seq::<ChordView>::empty());
    assert(pair_views(normalized@) =~= Seq::<(Seq<char>, Seq<char>)>::empty());
    while i < defs.len()
        invariant
            i <= defs.len() == 8,
            definitions_ok(defs@),
            vals == pair_views(values@),
            match normalized_values(vals) {
                Ok(all) => match normalize_from(vals, i as nat, chords@.map_values(|c: ShortcutChord| c@)) {
                    Ok(rest) => all == pair_views(normalized@) + rest,
                    Err(_) => false,
                },
                Err(m) => normalize_from(vals, i as nat, chords@.map_values(|c: ShortcutChord| c@)) == Err::<Seq<(Seq<char>, Seq<char>)>, Seq<char>>(m),
            },
        decreases defs.len() - i,
    {
        let ghost seen = chords@.map_values(|c: ShortcutChord| c@);
        let ghost before = normalized@;
        let d = defs[i];
        assert(d.id@ == definition_ids()[i as int]);
        assert(d.default@ == definition_defaults()[i as int]);
        assert(d.title@ == definition_titles()[i as int]);
        let raw: &str = match lookup_exec(values, d.id) {
            Some(k) => values[k].1.as_str(),
            None => d.default,
        };
        assert(raw@ == raw_value(vals, i as int));
        let parsed = match parse(raw) {
            Ok(p) => p,
            Err(m) => return Err(m),
        };
        match parsed {
            None => {
                normalized.push((to_owned_string(d.id), String::new()));
                assert(pair_views(normalized@) =~= pair_views(before) + seq![(definition_ids()[i as int], Seq::<char>::empty())]);
            },
            Some(chord) => {
                match find_chord(&chords, &chord) {
                    Some(k) => {
                        assert(seen[k as int] == chord@);
                        let mut message = to_owned_string(d.title);
                        push_str(&mut message, " uses a shortcut that is already assigned");
                        return Err(message);
                    },
                    None => {},
                }
                assert(!seen_chord(seen, chord@));
                let label = chord.label();
                normalized.push((to_owned_string(d.id), label));
                chords.push(chord);
                assert(chords@.map_values(|c: ShortcutChord| c@) =~= seen.push(chord@));
                assert(pair_views(normalized@) =~= pair_views(before) + seq![(definition_ids()[i as int], chord_label(chord@))]);
            },
        }
        i = i + 1;
    }
    Ok(normalized)
}

/// Stored values merged over the defaults: the stored text of each shortcut
/// where there is one, else its default.
pub open spec fn merged_raw(stored: Seq<(Seq<char>, Seq<char>)>) -> Seq<(Seq<char>, Seq<char>)> {
    Seq::new(8, |i: int| (definition_ids()[i], raw_value(stored, i)))
}

/// The shortcuts in effect: the stored values over the defaults, normalized;
/// the defaults when the result would be unusable.
pub fn merged_values(stored: &Vec<(String, String)>) -> (r: Vec<(String, String)>)
    ensures
        match normalized_values(merged_raw(pair_views(stored@))) {
            Ok(v) => pair_views(r@) == v,
            Err(_) => pair_views(r@) == default_values(),
        },
        (exists|k1: int, k2: int| 0 <= k1 < k2 < 8 && #[trigger] same_chord(pair_views(stored@), k1, k2))
            ==> pair_views(r@) == default_values(),
        ((forall|k: int| 0 <= k < 8 ==> #[trigger] parse_outcome(raw_value(pair_views(stored@), k)) is Ok)
            && (forall|k1: int, k2: int| 0 <= k1 < k2 < 8 ==> !#[trigger] same_chord(pair_views(stored@), k1, k2)))
            ==> (r.len() == 8 && forall|k: int| 0 <= k < 8 ==> #[trigger] entry_for(pair_views(stored@), k, pair_views(r@)[k])),
{
    let defs = definitions();
    let mut values: Vec<(String, String)> = Vec::new();
    let mut i: usize = 0;
    while i < defs.len()
        invariant
            i <= defs.len() == 8,
            definitions_ok(defs@),
            pair_views(values@) == merged_raw(pair_views(stored@)).subrange(0, i as int),
        decreases defs.len() - i,
    {
        let d = defs[i];
        assert(d.id@ == definition_ids()[i as int]);
        assert(d.default@ == definition_defaults()[i as int]);
        let value = match lookup_exec(stored, d.id) {
            Some(k) => stored[k].1.clone(),
            None => to_owned_string(d.default),
        };
        let ghost pv = pair_views(values@);
        let entry = (to_owned_string(d.id), value);
        assert((entry.0@, entry.1@) == merged_raw(pair_views(stored@))[i as int]);
        values.push(entry);
        assert(pair_views(values@) =~= pv.push((entry.0@, entry.1@)));
        assert(merged_raw(pair_views(stored@)).subrange(0, i + 1) =~= merged_raw(pair_views(stored@)).subrange(0, i as int).push(
            merged_raw(pair_views(stored@))[i as int],
        ));
        i = i + 1;
    }
    assert(merged_raw(pair_views(stored@)).subrange(0, 8) =~= merged_raw(pair_views(stored@)));
    proof {
        let st = pair_views(stored@);
        let m = merged_raw(st);
        lemma_merged_lookup(st);
        normalized_values_law(m);
        assert forall|k1: int, k2: int| #![trigger same_chord(st, k1, k2)] #![trigger same_chord(m, k1, k2)] 0 <= k1 < 8 && 0 <= k2 < 8 implies same_chord(m, k1, k2)
            == same_chord(st, k1, k2) by {
            assert(raw_value(m, k1) == raw_value(st, k1));
            assert(raw_value(m, k2) == raw_value(st, k2));
        }
        assert forall|k: int, e: (Seq<char>, Seq<char>)| #![trigger entry_for(st, k, e)] #![trigger entry_for(m, k, e)] 0 <= k < 8 implies entry_for(m, k, e)
            == entry_for(st, k, e) by {
            assert(raw_value(m, k) == raw_value(st, k));
        }
        assert forall|k: int| #![trigger raw_value(st, k)] #![trigger raw_value(m, k)] 0 <= k < 8 implies parse_outcome(raw_value(m, k)) == parse_outcome(
            raw_value(st, k),
        ) by {
            assert(raw_value(m, k) == raw_value(st, k));
        }
    }
    match normalize_values(&values) {
        Ok(normalized) => normalized,
        Err(_) => defaults(),
    }
}

/// Reading the merged values back gives, for every shortcut, what was merged.
proof fn lemma_merged_lookup(stored: Seq<(Seq<char>, Seq<char>)>)
    ensures
        forall|i: int| 0 <= i < 8 ==> #[trigger] raw_value(merged_raw(stored), i) == raw_value(stored, i),
{
    lemma_definition_ids_distinct();
    assert forall|i: int| 0 <= i < 8 implies #[trigger] raw_value(merged_raw(stored), i) == raw_value(
        stored,
        i,
    ) by {
        lemma_lookup_first(merged_raw(stored), definition_ids()[i], i);
    }
}

/// The first entry with a key is the one looked up.
proof fn lemma_lookup_first(values: Seq<(Seq<char>, Seq<char>)>, key: Seq<char>, i: int)
    requires
        0 <= i < values.len(),
        values[i].0 == key,
        forall|j: int| 0 <= j < i ==> (#[trigger] values[j]).0 != key,
    ensures
        lookup(values, key) == Some(values[i].1),
    decreases i,
{
    if i > 0 {
        let rest = values.drop_first();
        assert forall|j: int| 0 <= j < i - 1 implies (#[trigger] rest[j]).0 != key by {
            assert(rest[j] == values[j + 1]);
        }
        lemma_lookup_first(rest, key, i - 1);
    }
}

/// No two shortcuts share an identifier.
proof fn lemma_definition_ids_distinct()
    ensures
        forall|i: int, j: int| 0 <= i < 8 && 0 <= j < 8 && i != j ==> #[trigger] definition_ids()[i]
            != #[trigger] definition_ids()[j],
{
    reveal_strlit("new-conversation");
    reveal_strlit("focus-message");
    reveal_strlit("search-chats");
    reveal_strlit("show-models");
    reveal_strlit("refresh-models");
    reveal_strlit("preferences");
    reveal_strlit("toggle-sidebar");
    reveal_strlit("stop-generation");
    assert("show-models"@[0] != "preferences"@[0]);
    assert("refresh-models"@[0] != "toggle-sidebar"@[0]);
    assert forall|i: int, j: int| 0 <= i < 8 && 0 <= j < 8 && i != j implies #[trigger] definition_ids()[i]
        != #[trigger] definition_ids()[j] by {
        assert(definition_ids()[i] == definition_id(i));
        assert(definition_ids()[j] == definition_id(j));
        if (i == 3 && j == 5) || (i == 5 && j == 3) {
            assert(definition_id(i)[0] != definition_id(j)[0]);
        } else if (i == 4 && j == 6) || (i == 6 && j == 4) {
            assert(definition_id(i)[0] != definition_id(j)[0]);
        } else {
            assert(definition_id(i).len() != definition_id(j).len());
        }
    }
}

// ----------------------------------------------------------------------
// A label reads back as the chord it shows.
// ----------------------------------------------------------------------

pub open spec fn is_modifier_name(l: Seq<char>) -> bool {
    is_ctrl_name(l) || is_alt_name(l) || is_shift_name(l) || is_super_name(l)
}

/// What every key a shortcut can hold satisfies: it is a canonical key name
/// that reads as itself, and it can stand in a label.
pub open spec fn good_key(k: Seq<char>) -> bool {
    &&& k.len() > 0
    &&& !is_ws(k[0])
    &&& !is_ws(k.last())
    &&& no_char(k, '+')
    &&& (no_char(k, '<') || k.len() == 1)
    &&& key_outcome(k) == Ok::<Seq<char>, Seq<char>>(k)
    &&& !is_modifier_name(lower(k))
}

/// Lengths and distinguishing characters of the key and modifier names, so
/// that different names are told apart.
proof fn lemma_name_fingerprints()
    ensures
        "escape"@.len() == 6 && "escape"@[0] == 'e',
        "esc"@.len() == 3 && "esc"@[0] == 'e' && "esc"@[1] == 's',
        "return"@.len() == 6 && "return"@[0] == 'r',
        "enter"@.len() == 5 && "enter"@[0] == 'e',
        "space"@.len() == 5 && "space"@[0] == 's' && "space"@[1] == 'p',
        "tab"@.len() == 3 && "tab"@[0] == 't',
        "backspace"@.len() == 9 && "backspace"@[0] == 'b',
        "delete"@.len() == 6 && "delete"@[0] == 'd',
        "del"@.len() == 3 && "del"@[0] == 'd',
        "insert"@.len() == 6 && "insert"@[0] == 'i',
        "ins"@.len() == 3 && "ins"@[0] == 'i',
        "home"@.len() == 4 && "home"@[0] == 'h',
        "end"@.len() == 3 && "end"@[0] == 'e' && "end"@[1] == 'n',
        "pageup"@.len() == 6 && "pageup"@[0] == 'p',
        "page-up"@.len() == 7 && "page-up"@[0] == 'p' && "page-up"@[1] == 'a' && "page-up"@[4] == '-',
        "page up"@.len() == 7 && "page up"@[0] == 'p' && "page up"@[1] == 'a' && "page up"@[4] == ' ',
        "pagedown"@.len() == 8 && "pagedown"@[0] == 'p',
        "page-down"@.len() == 9 && "page-down"@[0] == 'p' && "page-down"@[4] == '-',
        "page down"@.len() == 9 && "page down"@[0] == 'p' && "page down"@[4] == ' ',
        "up"@.len() == 2 && "up"@[0] == 'u',
        "arrowup"@.len() == 7 && "arrowup"@[0] == 'a',
        "arrow-up"@.len() == 8 && "arrow-up"@[0] == 'a',
        "down"@.len() == 4 && "down"@[0] == 'd',
        "arrowdown"@.len() == 9 && "arrowdown"@[0] == 'a' && "arrowdown"@[5] == 'd',
        "arrow-down"@.len() == 10 && "arrow-down"@[0] == 'a' && "arrow-down"@[5] == '-' && "arrow-down"@[6] == 'd',
        "left"@.len() == 4 && "left"@[0] == 'l',
        "arrowleft"@.len() == 9 && "arrowleft"@[0] == 'a' && "arrowleft"@[5] == 'l',
        "arrow-left"@.len() == 10 && "arrow-left"@[0] == 'a' && "arrow-left"@[5] == '-' && "arrow-left"@[6] == 'l',
        "right"@.len() == 5 && "right"@[0] == 'r',
        "arrowright"@.len() == 10 && "arrowright"@[0] == 'a' && "arrowright"@[5] == 'r',
        "arrow-right"@.len() == 11 && "arrow-right"@[0] == 'a',
        "ctrl"@.len() == 4 && "ctrl"@[0] == 'c',
        "control"@.len() == 7 && "control"@[0] == 'c' && "control"@[2] == 'n',
        "primary"@.len() == 7 && "primary"@[0] == 'p' && "primary"@[1] == 'r',
        "alt"@.len() == 3 && "alt"@[0] == 'a',
        "option"@.len() == 6 && "option"@[0] == 'o',
        "shift"@.len() == 5 && "shift"@[0] == 's' && "shift"@[1] == 'h',
        "super"@.len() == 5 && "super"@[0] == 's' && "super"@[1] == 'u',
        "meta"@.len() == 4 && "meta"@[0] == 'm',
        "cmd"@.len() == 3 && "cmd"@[0] == 'c',
        "command"@.len() == 7 && "command"@[0] == 'c' && "command"@[2] == 'm',
        "Esc"@.len() == 3 && "Esc"@[0] == 'E' && "Esc"@[1] == 's',
        "Enter"@.len() == 5 && "Enter"@[0] == 'E',
        "Space"@.len() == 5 && "Space"@[0] == 'S',
        "Tab"@.len() == 3 && "Tab"@[0] == 'T',
        "Backspace"@.len() == 9 && "Backspace"@[0] == 'B',
        "Delete"@.len() == 6 && "Delete"@[0] == 'D',
        "Insert"@.len() == 6 && "Insert"@[0] == 'I',
        "Home"@.len() == 4 && "Home"@[0] == 'H',
        "End"@.len() == 3 && "End"@[0] == 'E' && "End"@[1] == 'n',
        "PageUp"@.len() == 6 && "PageUp"@[0] == 'P',
        "PageDown"@.len() == 8 && "PageDown"@[0] == 'P',
        "Up"@.len() == 2 && "Up"@[0] == 'U',
        "Down"@.len() == 4 && "Down"@[0] == 'D',
        "Left"@.len() == 4 && "Left"@[0] == 'L',
        "Right"@.len() == 5 && "Right"@[0] == 'R',
{
    reveal_strlit("escape");
    reveal_strlit("esc");
    reveal_strlit("return");
    reveal_strlit("enter");
    reveal_strlit("space");
    reveal_strlit("tab");
    reveal_strlit("backspace");
    reveal_strlit("delete");
    reveal_strlit("del");
    reveal_strlit("insert");
    reveal_strlit("ins");
    reveal_strlit("home");
    reveal_strlit("end");
    reveal_strlit("pageup");
    reveal_strlit("page-up");
    reveal_strlit("page up");
    reveal_strlit("pagedown");
    reveal_strlit("page-down");
    reveal_strlit("page down");
    reveal_strlit("up");
    reveal_strlit("arrowup");
    reveal_strlit("arrow-up");
    reveal_strlit("down");
    reveal_strlit("arrowdown");
    reveal_strlit("arrow-down");
    reveal_strlit("left");
    reveal_strlit("arrowleft");
    reveal_strlit("arrow-left");
    reveal_strlit("right");
    reveal_strlit("arrowright");
    reveal_strlit("arrow-right");
    reveal_strlit("ctrl");
    reveal_strlit("control");
    reveal_strlit("primary");
    reveal_strlit("alt");
    reveal_strlit("option");
    reveal_strlit("shift");
    reveal_strlit("super");
    reveal_strlit("meta");
    reveal_strlit("cmd");
    reveal_strlit("command");
    reveal_strlit("Esc");
    reveal_strlit("Enter");
    reveal_strlit("Space");
    reveal_strlit("Tab");
    reveal_strlit("Backspace");
    reveal_strlit("Delete");
    reveal_strlit("Insert");
    reveal_strlit("Home");
    reveal_strlit("End");
    reveal_strlit("PageUp");
    reveal_strlit("PageDown");
    reveal_strlit("Up");
    reveal_strlit("Down");
    reveal_strlit("Left");
    reveal_strlit("Right");
}

proof fn lemma_output_esc()
    ensures
        good_key("Esc"@),
{
    lemma_name_fingerprints();
    reveal_strlit("Esc");
    reveal_strlit("esc");
    assert(lower("Esc"@) =~= "esc"@);
    assert(named_key("esc"@) == Some("Esc"@));
    lemma_output_good("Esc"@, "esc"@);
}

proof fn lemma_output_enter()
    ensures
        good_key("Enter"@),
{
    lemma_name_fingerprints();
    reveal_strlit("Enter");
    reveal_strlit("enter");
    assert(lower("Enter"@) =~= "enter"@);
    assert(named_key("enter"@) == Some("Enter"@));
    lemma_output_good("Enter"@, "enter"@);
}

proof fn lemma_output_space()
    ensures
        good_key("Space"@),
{
    lemma_name_fingerprints();
    reveal_strlit("Space");
    reveal_strlit("space");
    assert(lower("Space"@) =~= "space"@);
    assert(named_key("space"@) == Some("Space"@));
    lemma_output_good("Space"@, "space"@);
}

proof fn lemma_output_tab()
    ensures
        good_key("Tab"@),
{
    lemma_name_fingerprints();
    reveal_strlit("Tab");
    reveal_strlit("tab");
    assert(lower("Tab"@) =~= "tab"@);
    assert(named_key("tab"@) == Some("Tab"@));
    lemma_output_good("Tab"@, "tab"@);
}

proof fn lemma_output_backspace()
    ensures
        good_key("Backspace"@),
{
    lemma_name_fingerprints();
    reveal_strlit("Backspace");
    reveal_strlit("backspace");
    assert(lower("Backspace"@) =~= "backspace"@);
    assert(named_key("backspace"@) == Some("Backspace"@));
    lemma_output_good("Backspace"@, "backspace"@);
}

proof fn lemma_output_delete()
    ensures
        good_key("Delete"@),
{
    lemma_name_fingerprints();
    reveal_strlit("Delete");
    reveal_strlit("delete");
    assert(lower("Delete"@) =~= "delete"@);
    assert(named_key("delete"@) == Some("Delete"@));
    lemma_output_good("Delete"@, "delete"@);
}

proof fn lemma_output_insert()
    ensures
        good_key("Insert"@),
{
    lemma_name_fingerprints();
    reveal_strlit("Insert");
    reveal_strlit("insert");
    assert(lower("Insert"@) =~= "insert"@);
    assert(named_key("insert"@) == Some("Insert"@));
    lemma_output_good("Insert"@, "insert"@);
}

proof fn lemma_output_home()
    ensures
        good_key("Home"@),
{
    lemma_name_fingerprints();
    reveal_strlit("Home");
    reveal_strlit("home");
    assert(lower("Home"@) =~= "home"@);
    assert(named_key("home"@) == Some("Home"@));
    lemma_output_good("Home"@, "home"@);
}

proof fn lemma_output_end()
    ensures
        good_key("End"@),
{
    lemma_name_fingerprints();
    reveal_strlit("End");
    reveal_strlit("end");
    assert(lower("End"@) =~= "end"@);
    assert(named_key("end"@) == Some("End"@));
    lemma_output_good("End"@, "end"@);
}

proof fn lemma_output_pageup()
    ensures
        good_key("PageUp"@),
{
    lemma_name_fingerprints();
    reveal_strlit("PageUp");
    reveal_strlit("pageup");
    assert(lower("PageUp"@) =~= "pageup"@);
    assert(named_key("pageup"@) == Some("PageUp"@));
    lemma_output_good("PageUp"@, "pageup"@);
}

proof fn lemma_output_pagedown()
    ensures
        good_key("PageDown"@),
{
    lemma_name_fingerprints();
    reveal_strlit("PageDown");
    reveal_strlit("pagedown");
    assert(lower("PageDown"@) =~= "pagedown"@);
    assert(named_key("pagedown"@) == Some("PageDown"@));
    lemma_output_good("PageDown"@, "pagedown"@);
}

proof fn lemma_output_up()
    ensures
        good_key("Up"@),
{
    lemma_name_fingerprints();
    reveal_strlit("Up");
    reveal_strlit("up");
    assert(lower("Up"@) =~= "up"@);
    assert(named_key("up"@) == Some("Up"@));
    lemma_output_good("Up"@, "up"@);
}

proof fn lemma_output_down()
    ensures
        good_key("Down"@),
{
    lemma_name_fingerprints();
    reveal_strlit("Down");
    reveal_strlit("down");
    assert(lower("Down"@) =~= "down"@);
    assert(named_key("down"@) == Some("Down"@));
    lemma_output_good("Down"@, "down"@);
}

proof fn lemma_output_left()
    ensures
        good_key("Left"@),
{
    lemma_name_fingerprints();
    reveal_strlit("Left");
    reveal_strlit("left");
    assert(lower("Left"@) =~= "left"@);
    assert(named_key("left"@) == Some("Left"@));
    lemma_output_good("Left"@, "left"@);
}

proof fn lemma_output_right()
    ensures
        good_key("Right"@),
{
    lemma_name_fingerprints();
    reveal_strlit("Right");
    reveal_strlit("right");
    assert(lower("Right"@) =~= "right"@);
    assert(named_key("right"@) == Some("Right"@));
    lemma_output_good("Right"@, "right"@);
}

/// Every key name `named_key` gives is a good key.
proof fn lemma_named_output_good(l: Seq<char>)
    requires
        named_key(l) is Some,
    ensures
        good_key(named_key(l).unwrap()),
{
    if l == "escape"@ || l == "esc"@ {
        lemma_output_esc();
    } else if l == "return"@ || l == "enter"@ {
        lemma_output_enter();
    } else if l == "space"@ {
        lemma_output_space();
    } else if l == "tab"@ {
        lemma_output_tab();
    } else if l == "backspace"@ {
        lemma_output_backspace();
    } else if l == "delete"@ || l == "del"@ {
        lemma_output_delete();
    } else if l == "insert"@ || l == "ins"@ {
        lemma_output_insert();
    } else if l == "home"@ {
        lemma_output_home();
    } else if l == "end"@ {
        lemma_output_end();
    } else if l == "pageup"@ || l == "page-up"@ || l == "page up"@ {
        lemma_output_pageup();
    } else if l == "pagedown"@ || l == "page-down"@ || l == "page down"@ {
        lemma_output_pagedown();
    } else if l == "up"@ || l == "arrowup"@ || l == "arrow-up"@ {
        lemma_output_up();
    } else if l == "down"@ || l == "arrowdown"@ || l == "arrow-down"@ {
        lemma_output_down();
    } else if l == "left"@ || l == "arrowleft"@ || l == "arrow-left"@ {
        lemma_output_left();
    } else if l == "right"@ || l == "arrowright"@ || l == "arrow-right"@ {
        lemma_output_right();
    }
}

/// A name that `named_key` knows has at least two characters.
proof fn lemma_named_key_long(l: Seq<char>)
    requires
        named_key(l) is Some,
    ensures
        l.len() >= 2,
{
    reveal_strlit("escape");
    reveal_strlit("esc");
    reveal_strlit("return");
    reveal_strlit("enter");
    reveal_strlit("space");
    reveal_strlit("tab");
    reveal_strlit("backspace");
    reveal_strlit("delete");
    reveal_strlit("del");
    reveal_strlit("insert");
    reveal_strlit("ins");
    reveal_strlit("home");
    reveal_strlit("end");
    reveal_strlit("pageup");
    reveal_strlit("page-up");
    reveal_strlit("page up");
    reveal_strlit("pagedown");
    reveal_strlit("page-down");
    reveal_strlit("page down");
    reveal_strlit("up");
    reveal_strlit("arrowup");
    reveal_strlit("arrow-up");
    reveal_strlit("down");
    reveal_strlit("arrowdown");
    reveal_strlit("arrow-down");
    reveal_strlit("left");
    reveal_strlit("arrowleft");
    reveal_strlit("arrow-left");
    reveal_strlit("right");
    reveal_strlit("arrowright");
    reveal_strlit("arrow-right");
}

proof fn lemma_output_good(k: Seq<char>, lk: Seq<char>)
    requires
        lower(k) == lk,
        named_key(lk) == Some(k),
        k.len() > 0,
        !is_ws(k[0]),
        !is_ws(k.last()),
        no_char(k, '+'),
        no_char(k, '<'),
        !is_modifier_name(lk),
    ensures
        good_key(k),
{
}

proof fn lemma_char_case(c: char)
    ensures
        is_ascii_alpha(c) ==> is_ascii_alpha(upper_char(c)),
        is_ascii_alpha(c) ==> upper_char(upper_char(c)) == upper_char(c),
        is_ascii_alpha(c) ==> upper_char(c) != '+' && !is_ws(upper_char(c)),
        !is_ascii_alpha(c) ==> upper_char(c) == c && lower_char(c) == c,
        ('a' <= c && c <= 'z') ==> lower_char(upper_char(c)) == c,
        is_ascii_digit(c) ==> upper_char(c) == c && lower_char(c) == c,
        lower_char(c) == '+' <==> c == '+',
{
    if 'a' <= c && c <= 'z' {
        let u = ((c as u32) - 32) as char;
        assert(u as u32 == (c as u32) - 32);
        assert('A' <= u && u <= 'Z');
        assert(((u as u32) + 32) as char == c);
    }
    if 'A' <= c && c <= 'Z' {
        let l = ((c as u32) + 32) as char;
        assert(l as u32 == (c as u32) + 32);
        assert('a' <= l && l <= 'z');
    }
}

/// What `key_outcome` accepts from a trimmed part without `+` is a good key.
proof fn lemma_key_outcome_good(p: Seq<char>)
    requires
        p.len() > 0,
        !is_ws(p[0]),
        !is_ws(p.last()),
        no_char(p, '+'),
    ensures
        key_outcome(p) matches Ok(k) ==> good_key(k),
{
    lemma_name_fingerprints();
    let l = lower(p);
    assert forall|i: int| 0 <= i < l.len() implies #[trigger] l[i] != '+' by {
        lemma_char_case(p[i]);
    }
    if named_key(l) is Some {
        lemma_named_output_good(l);
    } else if function_key(l) {
        let k = upper(l);
        let r = l.drop_first();
        assert(r.len() > 0 ==> r[0] == l[1]);
        assert(r.len() == 0 || r[0] != '+');
        assert(all_digits(r) && r.len() > 0);
        assert forall|i: int| 1 <= i < l.len() implies is_ascii_digit(#[trigger] l[i]) by {
            assert(r[i - 1] == l[i]);
        }
        assert forall|i: int| 0 <= i < l.len() implies #[trigger] lower_char(upper_char(l[i])) == l[i] by {
            lemma_char_case(l[i]);
        }
        assert(lower(k) =~= l);
        assert forall|i: int| 0 <= i < k.len() implies #[trigger] k[i] != '+' && k[i] != '<' by {
            lemma_char_case(l[i]);
        }
        lemma_char_case(l[0]);
        lemma_char_case(l[l.len() - 1]);
        assert(k[0] == 'F');
        assert(k.last() == l.last());
    } else if p.len() == 1 {
        let c = p[0];
        let k = character_key(c);
        lemma_char_case(c);
        lemma_char_case(k[0]);
        let lk = lower(k);
        assert(lk.len() == 1);
        if named_key(lk) is Some {
            lemma_named_key_long(lk);
        }
        assert(lk.drop_first().len() == 0);
        assert(!function_key(lk));
        assert(character_key(k[0]) == k);
        assert(key_outcome(k) == Ok::<Seq<char>, Seq<char>>(k));
    }
}

/// Reading parts without `+` only ever takes good keys.
proof fn lemma_read_parts_good(parts: Seq<Seq<char>>, st: ChordParts)
    requires
        parts_without(parts, '+'),
        st.key matches Some(k) ==> good_key(k),
    ensures
        read_parts(parts, st) matches Ok(s2) ==> (s2.key matches Some(k) ==> good_key(k)),
    decreases parts.len(),
{
    if parts.len() > 0 {
        let p = trim(parts[0]);
        let rest = parts.drop_first();
        assert(parts_without(rest, '+')) by {
            assert forall|i: int| 0 <= i < rest.len() implies no_char(#[trigger] rest[i], '+') by {
                assert(rest[i] == parts[i + 1]);
            }
        }
        crate::text::lemma_trim_chars(parts[0]);
        crate::text::lemma_trim_ends(parts[0]);
        assert forall|j: int| 0 <= j < p.len() implies #[trigger] p[j] != '+' by {
            let k = choose|k: int| 0 <= k < parts[0].len() && parts[0][k] == p[j];
            assert(no_char(parts[0], '+'));
        }
        if p.len() > 0 {
            lemma_key_outcome_good(p);
        }
        let l = lower(p);
        if p.len() == 0 {
        } else if is_ctrl_name(l) {
            lemma_read_parts_good(rest, ChordParts { ctrl: true, ..st });
        } else if is_alt_name(l) {
            lemma_read_parts_good(rest, ChordParts { alt: true, ..st });
        } else if is_shift_name(l) {
            lemma_read_parts_good(rest, ChordParts { shift: true, ..st });
        } else if is_super_name(l) {
            lemma_read_parts_good(rest, ChordParts { super_key: true, ..st });
        } else {
            match key_outcome(p) {
                Err(m) => {},
                Ok(k) => if st.key is None {
                    lemma_read_parts_good(rest, ChordParts { key: Some(k), ..st });
                },
            }
        }
    }
}

proof fn lemma_scan_plain(s: Seq<char>, out: Seq<char>, b: Seq<char>)
    requires
        no_char(s, '<'),
    ensures
        bracket_scan(s, out, b, false) == (out + s, false),
    decreases s.len(),
{
    if s.len() == 0 {
        assert(out + s =~= out);
    } else {
        assert(s[0] != '<');
        assert(no_char(s.drop_first(), '<')) by {
            assert forall|i: int| 0 <= i < s.drop_first().len() implies #[trigger] s.drop_first()[i] != '<' by {
                assert(s.drop_first()[i] == s[i + 1]);
            }
        }
        lemma_scan_plain(s.drop_first(), out.push(s[0]), b);
        assert(out.push(s[0]) + s.drop_first() =~= out + s);
    }
}

proof fn lemma_scan_open_last(s: Seq<char>, out: Seq<char>, b: Seq<char>)
    requires
        s.len() > 0,
        s.last() == '<',
        no_char(s.drop_last(), '<'),
    ensures
        bracket_scan(s, out, b, false).1,
    decreases s.len(),
{
    if s.len() == 1 {
        assert(s[0] == '<');
        assert(s.drop_first().len() == 0);
        assert(bracket_scan(s.drop_first(), out, Seq::empty(), true) == (out, true));
    } else {
        assert(s[0] == s.drop_last()[0]);
        assert(s[0] != '<');
        let t = s.drop_first();
        assert(t.last() == s.last());
        assert(no_char(t.drop_last(), '<')) by {
            assert forall|i: int| 0 <= i < t.drop_last().len() implies #[trigger] t.drop_last()[i] != '<' by {
                assert(t.drop_last()[i] == s.drop_last()[i + 1]);
            }
        }
        lemma_scan_open_last(t, out.push(s[0]), b);
    }
}

proof fn lemma_join_no_char(ps: Seq<Seq<char>>, sep: Seq<char>, c: char)
    requires
        parts_without(ps, c),
        no_char(sep, c),
    ensures
        no_char(join(ps, sep), c),
    decreases ps.len(),
{
    if ps.len() > 1 {
        let init = ps.drop_last();
        assert(parts_without(init, c)) by {
            assert forall|i: int| 0 <= i < init.len() implies no_char(#[trigger] init[i], c) by {
                assert(init[i] == ps[i]);
            }
        }
        lemma_join_no_char(init, sep, c);
        assert(no_char(ps.last(), c)) by {
            assert(ps.last() == ps[ps.len() - 1]);
        }
        let j = join(init, sep) + sep + ps.last();
        assert forall|i: int| 0 <= i < j.len() implies #[trigger] j[i] != c by {
            if i < join(init, sep).len() {
            } else if i < join(init, sep).len() + sep.len() {
                assert(j[i] == sep[i - join(init, sep).len()]);
            } else {
                assert(j[i] == ps.last()[i - join(init, sep).len() - sep.len()]);
            }
        }
    } else if ps.len() == 1 {
        assert(no_char(ps[0], c));
    }
}

pub open spec fn modifier_parts(c: ChordView) -> Seq<Seq<char>> {
    (if c.ctrl {
        seq!["Ctrl"@]
    } else {
        Seq::empty()
    }) + (if c.alt {
        seq!["Alt"@]
    } else {
        Seq::empty()
    }) + (if c.shift {
        seq!["Shift"@]
    } else {
        Seq::empty()
    }) + (if c.super_key {
        seq!["Super"@]
    } else {
        Seq::empty()
    })
}

proof fn lemma_read_parts_append(a: Seq<Seq<char>>, b: Seq<Seq<char>>, st: ChordParts)
    ensures
        read_parts(a + b, st) == match read_parts(a, st) {
            Ok(s2) => read_parts(b, s2),
            Err(e) => Err(e),
        },
    decreases a.len(),
{
    if a.len() == 0 {
        assert(a + b =~= b);
    } else {
        assert((a + b)[0] == a[0]);
        assert((a + b).drop_first() =~= a.drop_first() + b);
        let p = trim(a[0]);
        let l = lower(p);
        if p.len() == 0 {
        } else if is_ctrl_name(l) {
            lemma_read_parts_append(a.drop_first(), b, ChordParts { ctrl: true, ..st });
        } else if is_alt_name(l) {
            lemma_read_parts_append(a.drop_first(), b, ChordParts { alt: true, ..st });
        } else if is_shift_name(l) {
            lemma_read_parts_append(a.drop_first(), b, ChordParts { shift: true, ..st });
        } else if is_super_name(l) {
            lemma_read_parts_append(a.drop_first(), b, ChordParts { super_key: true, ..st });
        } else {
            match key_outcome(p) {
                Err(m) => {},
                Ok(k) => if st.key is None {
                    lemma_read_parts_append(a.drop_first(), b, ChordParts { key: Some(k), ..st });
                },
            }
        }
    }
}

proof fn lemma_read_modifiers(c: ChordView)
    ensures
        read_parts(modifier_parts(c), no_parts()) == Ok::<ChordParts, Seq<char>>(
            ChordParts { ctrl: c.ctrl, alt: c.alt, shift: c.shift, super_key: c.super_key, key: None },
        ),
{
    lemma_name_fingerprints();
    reveal_strlit("Ctrl");
    reveal_strlit("Alt");
    reveal_strlit("Shift");
    reveal_strlit("Super");
    crate::text::lemma_trim_noop("Ctrl"@);
    crate::text::lemma_trim_noop("Alt"@);
    crate::text::lemma_trim_noop("Shift"@);
    crate::text::lemma_trim_noop("Super"@);
    reveal_strlit("ctrl");
    reveal_strlit("alt");
    reveal_strlit("shift");
    reveal_strlit("super");
    assert(lower("Ctrl"@) =~= "ctrl"@);
    assert(lower("Alt"@) =~= "alt"@);
    assert(lower("Shift"@) =~= "shift"@);
    assert(lower("Super"@) =~= "super"@);
    let a: Seq<Seq<char>> = if c.ctrl {
        seq!["Ctrl"@]
    } else {
        Seq::empty()
    };
    let b: Seq<Seq<char>> = if c.alt {
        seq!["Alt"@]
    } else {
        Seq::empty()
    };
    let d: Seq<Seq<char>> = if c.shift {
        seq!["Shift"@]
    } else {
        Seq::empty()
    };
    let e: Seq<Seq<char>> = if c.super_key {
        seq!["Super"@]
    } else {
        Seq::empty()
    };
    let s0 = no_parts();
    let s1 = ChordParts { ctrl: c.ctrl, ..s0 };
    let s2 = ChordParts { alt: c.alt, ..s1 };
    let s3 = ChordParts { shift: c.shift, ..s2 };
    let s4 = ChordParts { super_key: c.super_key, ..s3 };
    assert(read_parts(a, s0) == Ok::<ChordParts, Seq<char>>(s1)) by {
        if c.ctrl {
            assert(a[0] == "Ctrl"@);
            assert(trim(a[0]) == "Ctrl"@);
            assert(lower(trim(a[0])) == "ctrl"@);
            assert(is_ctrl_name("ctrl"@));
            assert(a.drop_first() =~= Seq::<Seq<char>>::empty());
            assert(read_parts(a.drop_first(), s1) == Ok::<ChordParts, Seq<char>>(s1));
        } else {
            assert(s0 == s1);
        }
    }
    assert(read_parts(b, s1) == Ok::<ChordParts, Seq<char>>(s2)) by {
        if c.alt {
            assert(b[0] == "Alt"@);
            assert(trim(b[0]) == "Alt"@);
            assert(lower(trim(b[0])) == "alt"@);
            assert(!is_ctrl_name("alt"@));
            assert(is_alt_name("alt"@));
            assert(b.drop_first() =~= Seq::<Seq<char>>::empty());
            assert(read_parts(b.drop_first(), s2) == Ok::<ChordParts, Seq<char>>(s2));
        } else {
            assert(s1 == s2);
        }
    }
    assert(read_parts(d, s2) == Ok::<ChordParts, Seq<char>>(s3)) by {
        if c.shift {
            assert(d[0] == "Shift"@);
            assert(trim(d[0]) == "Shift"@);
            assert(lower(trim(d[0])) == "shift"@);
            assert(!is_ctrl_name("shift"@));
            assert(!is_alt_name("shift"@));
            assert(is_shift_name("shift"@));
            assert(d.drop_first() =~= Seq::<Seq<char>>::empty());
            assert(read_parts(d.drop_first(), s3) == Ok::<ChordParts, Seq<char>>(s3));
        } else {
            assert(s2 == s3);
        }
    }
    assert(read_parts(e, s3) == Ok::<ChordParts, Seq<char>>(s4)) by {
        if c.super_key {
            assert(e[0] == "Super"@);
            assert(trim(e[0]) == "Super"@);
            assert(lower(trim(e[0])) == "super"@);
            assert(!is_ctrl_name("super"@));
            assert(!is_alt_name("super"@));
            assert(!is_shift_name("super"@));
            assert(is_super_name("super"@));
            assert(e.drop_first() =~= Seq::<Seq<char>>::empty());
            assert(read_parts(e.drop_first(), s4) == Ok::<ChordParts, Seq<char>>(s4));
        } else {
            assert(s3 == s4);
        }
    }
    lemma_read_parts_append(a, b, s0);
    lemma_read_parts_append(a + b, d, s0);
    lemma_read_parts_append(a + b + d, e, s0);
    assert(modifier_parts(c) == a + b + d + e);
}

proof fn lemma_read_key_part(k: Seq<char>, st: ChordParts)
    requires
        good_key(k),
        st.key is None,
    ensures
        read_parts(seq![k], st) == Ok::<ChordParts, Seq<char>>(ChordParts { key: Some(k), ..st }),
{
    crate::text::lemma_trim_noop(k);
    let ps = seq![k];
    assert(ps[0] == k);
    assert(trim(ps[0]) == k);
    assert(!is_ctrl_name(lower(k)) && !is_alt_name(lower(k)) && !is_shift_name(lower(k))
        && !is_super_name(lower(k)));
    let next = ChordParts { key: Some(k), ..st };
    assert(ps.drop_first() =~= Seq::<Seq<char>>::empty());
    assert(read_parts(ps.drop_first(), next) == Ok::<ChordParts, Seq<char>>(next));
}

/// A chord with a good key, that a shortcut may hold, is read back from its label.
proof fn lemma_label_parses(c: ChordView)
    requires
        good_key(c.key),
        !(!c.ctrl && !c.alt && !c.shift && !c.super_key && requires_modifier_spec(c.key)),
    ensures
        parse_outcome(chord_label(c)) == Ok::<Option<ChordView>, Seq<char>>(Some(c)),
{
    lemma_name_fingerprints();
    reveal_strlit("Ctrl");
    reveal_strlit("Alt");
    reveal_strlit("Shift");
    reveal_strlit("Super");
    reveal_strlit("+");
    let k = c.key;
    let m = modifier_parts(c);
    let ps = label_parts(c);
    assert(ps =~= m + seq![k]);
    let label = chord_label(c);
    assert(forall|i: int| 0 <= i < m.len() ==> (#[trigger] m[i]) == "Ctrl"@ || m[i] == "Alt"@ || m[i] == "Shift"@ || m[i] == "Super"@);
    assert forall|i: int| 0 <= i < ps.len() implies (#[trigger] ps[i]).len() > 0 && no_char(ps[i], '+')
        && (i < ps.len() - 1 ==> no_char(ps[i], '<') && !is_ws(ps[i][0])) by {
        if i < m.len() {
            assert(ps[i] == m[i]);
        } else {
            assert(ps[i] == k);
        }
    }
    assert(parts_without(ps, '+'));
    crate::text::lemma_join_ends(ps, "+"@);
    assert(ps.last() == k);
    assert(!is_ws(label[0])) by {
        assert(label[0] == ps[0][0]);
        if ps.len() == 1 {
            assert(ps[0] == k);
        }
    }
    crate::text::lemma_trim_noop(label);
    // The bracket scan leaves the label as it is.
    if no_char(k, '<') {
        assert(parts_without(ps, '<')) by {
            assert forall|i: int| 0 <= i < ps.len() implies no_char(#[trigger] ps[i], '<') by {
                if i == ps.len() - 1 {
                    assert(ps[i] == k);
                }
            }
        }
        lemma_join_no_char(ps, "+"@, '<');
        lemma_scan_plain(label, Seq::empty(), Seq::empty());
        assert(Seq::<char>::empty() + label =~= label);
    } else {
        assert(k.len() == 1);
        assert(k[0] == '<');
        if ps.len() == 1 {
            assert(label == k);
            assert(label.drop_last().len() == 0);
        } else {
            let init = ps.drop_last();
            assert(join(ps, "+"@) == join(init, "+"@) + "+"@ + k);
            assert(parts_without(init, '<')) by {
                assert forall|i: int| 0 <= i < init.len() implies no_char(#[trigger] init[i], '<') by {
                    assert(init[i] == ps[i]);
                }
            }
            lemma_join_no_char(init, "+"@, '<');
            assert(label.drop_last() =~= join(init, "+"@) + "+"@);
            let dl = label.drop_last();
            assert forall|i: int| 0 <= i < dl.len() implies #[trigger] dl[i] != '<' by {
                if i < join(init, "+"@).len() {
                    assert(dl[i] == join(init, "+"@)[i]);
                } else {
                    assert(dl[i] == '+');
                }
            }
        }
        lemma_scan_open_last(label, Seq::empty(), Seq::empty());
    }
    assert(normalized_input(label) == label);
    assert("+"@ =~= seq!['+']);
    crate::text::lemma_split_join(ps, '+');
    lemma_read_modifiers(c);
    let st = ChordParts { ctrl: c.ctrl, alt: c.alt, shift: c.shift, super_key: c.super_key, key: None };
    lemma_read_key_part(k, st);
    lemma_read_parts_append(m, seq![k], no_parts());
}

/// What a typed shortcut reads as is read back, unchanged, from the label the
/// preferences show for it.
pub proof fn lemma_label_reads_back(value: Seq<char>, c: ChordView)
    requires
        parse_outcome(value) == Ok::<Option<ChordView>, Seq<char>>(Some(c)),
    ensures
        parse_outcome(chord_label(c)) == Ok::<Option<ChordView>, Seq<char>>(Some(c)),
{
    let v = normalized_input(value);
    crate::text::lemma_split_no_sep(v, '+', Seq::empty());
    lemma_read_parts_good(split(v, '+'), no_parts());
    lemma_label_parses(c);
}


// ----------------------------------------------------------------------
// Laws of normalizing stored shortcuts.
// ----------------------------------------------------------------------

/// Shortcuts `k1` and `k2` read, from their stored or default text, as one
/// and the same chord.
pub open spec fn same_chord(values: Seq<(Seq<char>, Seq<char>)>, k1: int, k2: int) -> bool {
    parse_outcome(raw_value(values, k1)) matches Ok(Some(c1))
        && parse_outcome(raw_value(values, k2)) == Ok::<Option<ChordView>, Seq<char>>(Some(c1))
}

/// What the entry for shortcut `k` must be: its identifier, with the label of
/// the chord its text reads as, or no label when the text is blank.
pub open spec fn entry_for(values: Seq<(Seq<char>, Seq<char>)>, k: int, entry: (Seq<char>, Seq<char>)) -> bool {
    &&& entry.0 == definition_ids()[k]
    &&& match parse_outcome(raw_value(values, k)) {
        Ok(Some(c)) => entry.1 == chord_label(c),
        Ok(None) => entry.1 == Seq::<char>::empty(),
        Err(_) => false,
    }
}

/// The chord shortcut `k` reads as, if any, is not among `seen`.
pub open spec fn chord_unseen(values: Seq<(Seq<char>, Seq<char>)>, k: int, seen: Seq<ChordView>) -> bool {
    match parse_outcome(raw_value(values, k)) {
        Ok(Some(c)) => !seen_chord(seen, c),
        _ => true,
    }
}

proof fn lemma_labels_tell_chords_apart(v1: Seq<char>, c1: ChordView, v2: Seq<char>, c2: ChordView)
    requires
        parse_outcome(v1) == Ok::<Option<ChordView>, Seq<char>>(Some(c1)),
        parse_outcome(v2) == Ok::<Option<ChordView>, Seq<char>>(Some(c2)),
        chord_label(c1) == chord_label(c2),
    ensures
        c1 == c2,
{
    lemma_label_reads_back(v1, c1);
    lemma_label_reads_back(v2, c2);
}

proof fn lemma_normalize_from_ok(values: Seq<(Seq<char>, Seq<char>)>, i: nat, seen: Seq<ChordView>)
    requires
        i <= 8,
        normalize_from(values, i, seen) is Ok,
    ensures
        match normalize_from(values, i, seen) {
            Ok(out) => {
                &&& out.len() == 8 - i
                &&& forall|k: int| 0 <= k < out.len() ==> #[trigger] entry_for(values, i + k, out[k])
                &&& forall|k: int| i <= k < 8 ==> #[trigger] chord_unseen(values, k, seen)
                &&& forall|k1: int, k2: int| i <= k1 < k2 < 8 ==> !#[trigger] same_chord(values, k1, k2)
            },
            Err(_) => true,
        },
    decreases 8 - i,
{
    if i < 8 {
        match parse_outcome(raw_value(values, i as int)) {
            Err(_) => {},
            Ok(None) => {
                lemma_normalize_from_ok(values, i + 1, seen);
                let rest = normalize_from(values, i + 1, seen)->Ok_0;
                let out = normalize_from(values, i, seen)->Ok_0;
                assert(out == seq![(definition_ids()[i as int], Seq::<char>::empty())] + rest);
                assert forall|k: int| 0 <= k < out.len() implies #[trigger] entry_for(values, i + k, out[k]) by {
                    if k > 0 {
                        assert(out[k] == rest[k - 1]);
                        assert(entry_for(values, (i + 1) + (k - 1), rest[k - 1]));
                        assert(i + 1 + (k - 1) == i + k);
                    }
                }
                assert(chord_unseen(values, i as int, seen));
            },
            Ok(Some(c)) => {
                if !seen_chord(seen, c) {
                    let seen2 = seen.push(c);
                    lemma_normalize_from_ok(values, i + 1, seen2);
                    let rest = normalize_from(values, i + 1, seen2)->Ok_0;
                    let out = normalize_from(values, i, seen)->Ok_0;
                    assert(out == seq![(definition_ids()[i as int], chord_label(c))] + rest);
                    assert(seen2[seen.len() as int] == c);
                    assert forall|k: int| 0 <= k < out.len() implies #[trigger] entry_for(values, i + k, out[k]) by {
                        if k > 0 {
                            assert(out[k] == rest[k - 1]);
                            assert(entry_for(values, (i + 1) + (k - 1), rest[k - 1]));
                            assert(i + 1 + (k - 1) == i + k);
                        }
                    }
                    assert forall|k: int| i <= k < 8 implies #[trigger] chord_unseen(values, k, seen) by {
                        if k > i {
                            assert(chord_unseen(values, k, seen2));
                            if let Ok(Some(c2)) = parse_outcome(raw_value(values, k)) {
                                if seen_chord(seen, c2) {
                                    let j = choose|j: int| 0 <= j < seen.len() && #[trigger] seen[j] == c2;
                                    assert(seen2[j] == c2);
                                }
                            }
                        }
                    }
                    assert forall|k1: int, k2: int| i <= k1 < k2 < 8 implies !#[trigger] same_chord(values, k1, k2) by {
                        if k1 == i && same_chord(values, k1, k2) {
                            assert(chord_unseen(values, k2, seen2));
                        }
                    }
                }
            },
        }
    }
}

proof fn lemma_normalize_from_succeeds(values: Seq<(Seq<char>, Seq<char>)>, i: nat, seen: Seq<ChordView>)
    requires
        i <= 8,
        forall|k: int| i <= k < 8 ==> #[trigger] parse_outcome(raw_value(values, k)) is Ok,
        forall|k1: int, k2: int| i <= k1 < k2 < 8 ==> !#[trigger] same_chord(values, k1, k2),
        forall|k: int| i <= k < 8 ==> #[trigger] chord_unseen(values, k, seen),
    ensures
        normalize_from(values, i, seen) is Ok,
    decreases 8 - i,
{
    if i < 8 {
        assert(parse_outcome(raw_value(values, i as int)) is Ok);
        match parse_outcome(raw_value(values, i as int)) {
            Err(_) => {},
            Ok(None) => {
                lemma_normalize_from_succeeds(values, i + 1, seen);
            },
            Ok(Some(c)) => {
                assert(chord_unseen(values, i as int, seen));
                let seen2 = seen.push(c);
                assert forall|k: int| i + 1 <= k < 8 implies #[trigger] chord_unseen(values, k, seen2) by {
                    assert(chord_unseen(values, k, seen));
                    if let Ok(Some(c2)) = parse_outcome(raw_value(values, k)) {
                        assert(!same_chord(values, i as int, k));
                        assert(!seen_chord(seen, c2));
                        if seen_chord(seen2, c2) {
                            let j = choose|j: int| 0 <= j < seen2.len() && #[trigger] seen2[j] == c2;
                            if j < seen.len() {
                                assert(seen[j] == c2);
                            }
                        }
                    }
                }
                lemma_normalize_from_succeeds(values, i + 1, seen2);
            },
        }
    }
}

proof fn lemma_normalize_from_clash(values: Seq<(Seq<char>, Seq<char>)>, i: nat, j: int, seen: Seq<ChordView>, c: ChordView)
    requires
        i <= j < 8,
        parse_outcome(raw_value(values, j)) == Ok::<Option<ChordView>, Seq<char>>(Some(c)),
        forall|k: int| i <= k < j ==> #[trigger] parse_outcome(raw_value(values, k)) is Ok,
        forall|k1: int, k2: int| i <= k1 < k2 < j ==> !#[trigger] same_chord(values, k1, k2),
        forall|k: int| i <= k < j ==> #[trigger] chord_unseen(values, k, seen),
        seen_chord(seen, c) || exists|k: int| i <= k < j && #[trigger] same_chord(values, k, j),
    ensures
        normalize_from(values, i, seen) == Err::<Seq<(Seq<char>, Seq<char>)>, Seq<char>>(
            definition_titles()[j] + " uses a shortcut that is already assigned"@,
        ),
    decreases j - i,
{
    if i == j {
    } else {
        assert(parse_outcome(raw_value(values, i as int)) is Ok);
        match parse_outcome(raw_value(values, i as int)) {
            Err(_) => {},
            Ok(None) => {
                if !seen_chord(seen, c) {
                    let k = choose|k: int| i <= k < j && #[trigger] same_chord(values, k, j);
                    if k == i {
                        assert(same_chord(values, k, j));
                    }
                }
                lemma_normalize_from_clash(values, i + 1, j, seen, c);
            },
            Ok(Some(ci)) => {
                assert(chord_unseen(values, i as int, seen));
                let seen2 = seen.push(ci);
                assert(seen2[seen.len() as int] == ci);
                assert forall|k: int| i + 1 <= k < j implies #[trigger] chord_unseen(values, k, seen2) by {
                    assert(chord_unseen(values, k, seen));
                    if let Ok(Some(c2)) = parse_outcome(raw_value(values, k)) {
                        assert(!same_chord(values, i as int, k));
                        assert(!seen_chord(seen, c2));
                        if seen_chord(seen2, c2) {
                            let jj = choose|jj: int| 0 <= jj < seen2.len() && #[trigger] seen2[jj] == c2;
                            if jj < seen.len() {
                                assert(seen[jj] == c2);
                            }
                        }
                    }
                }
                if seen_chord(seen, c) {
                    let jj = choose|jj: int| 0 <= jj < seen.len() && #[trigger] seen[jj] == c;
                    assert(seen2[jj] == c);
                } else {
                    let k = choose|k: int| i <= k < j && #[trigger] same_chord(values, k, j);
                    if k == i {
                        assert(ci == c);
                    }
                }
                lemma_normalize_from_clash(values, i + 1, j, seen2, c);
            },
        }
    }
}

/// Normalizing stored shortcuts succeeds exactly when every shortcut's text
/// (stored, else its default) reads as a chord or as blank, and no two of them
/// read as the same chord. Then every shortcut, in definition order, gets the
/// label of its chord (or none when blank), and no two shortcuts share a label.
pub proof fn normalized_values_law(values: Seq<(Seq<char>, Seq<char>)>)
    ensures
        normalized_values(values) is Ok <==> (
            (forall|k: int| 0 <= k < 8 ==> #[trigger] parse_outcome(raw_value(values, k)) is Ok)
            && (forall|k1: int, k2: int| 0 <= k1 < k2 < 8 ==> !#[trigger] same_chord(values, k1, k2))),
        normalized_values(values) matches Ok(out) ==> {
            &&& out.len() == 8
            &&& forall|k: int| 0 <= k < 8 ==> #[trigger] entry_for(values, k, out[k])
            &&& forall|k1: int, k2: int| 0 <= k1 < k2 < 8 && out[k1].1.len() > 0 ==> #[trigger] out[k1].1 != #[trigger] out[k2].1
        },
{
    if normalized_values(values) is Ok {
        lemma_normalize_from_ok(values, 0, Seq::empty());
        let out = normalized_values(values)->Ok_0;
        assert forall|k: int| 0 <= k < 8 implies #[trigger] parse_outcome(raw_value(values, k)) is Ok by {
            assert(entry_for(values, 0 + k, out[k]));
        }
        assert forall|k: int| 0 <= k < 8 implies #[trigger] entry_for(values, k, out[k]) by {
            assert(entry_for(values, 0 + k, out[k]));
        }
        assert forall|k1: int, k2: int| 0 <= k1 < k2 < 8 && out[k1].1.len() > 0 implies #[trigger] out[k1].1 != #[trigger] out[k2].1 by {
            assert(entry_for(values, 0 + k1, out[k1]));
            assert(entry_for(values, 0 + k2, out[k2]));
            if out[k1].1 == out[k2].1 {
                let v1 = raw_value(values, k1);
                let v2 = raw_value(values, k2);
                if let Ok(Some(c1)) = parse_outcome(v1) {
                    if let Ok(Some(c2)) = parse_outcome(v2) {
                        lemma_labels_tell_chords_apart(v1, c1, v2, c2);
                        assert(same_chord(values, k1, k2));
                    }
                }
            }
        }
    } else {
        if (forall|k: int| 0 <= k < 8 ==> #[trigger] parse_outcome(raw_value(values, k)) is Ok)
            && (forall|k1: int, k2: int| 0 <= k1 < k2 < 8 ==> !#[trigger] same_chord(values, k1, k2)) {
            lemma_normalize_from_succeeds(values, 0, Seq::empty());
        }
    }
}

/// When two shortcuts read as the same chord, and nothing before the later of
/// them fails (every earlier text reads, and no earlier pair clashes),
/// normalizing fails naming the later shortcut, whichever earlier shortcut
/// holds the chord.
pub proof fn clash_names_later_shortcut(values: Seq<(Seq<char>, Seq<char>)>, i: int, j: int)
    requires
        0 <= i < j < 8,
        same_chord(values, i, j),
        forall|k: int| 0 <= k < j ==> #[trigger] parse_outcome(raw_value(values, k)) is Ok,
        forall|k1: int, k2: int| 0 <= k1 < k2 < j ==> !#[trigger] same_chord(values, k1, k2),
    ensures
        normalized_values(values) == Err::<Seq<(Seq<char>, Seq<char>)>, Seq<char>>(
            definition_titles()[j] + " uses a shortcut that is already assigned"@,
        ),
{
    let c = parse_outcome(raw_value(values, i))->Ok_0->Some_0;
    lemma_normalize_from_clash(values, 0, j, Seq::empty(), c);
}

} // verus!
