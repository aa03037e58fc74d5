//! Code blocks: which language a block is in, how it is labelled, and how tall it is drawn.
use vstd::prelude::*;

use crate::presentation::chat_text::{split_words, words};
use crate::text::{
    chars_of, chars_range, contains, contains_seq, is_ascii_alnum, is_prefix, is_ws, join,
    join_strings, lemma_trim_start_skip, lower, lower_chars, pieces, push_str, split_pieces,
    starts_with, str_eq, string_from_chars, string_views, to_owned_string, trim_start, upper_char,
    char_is_ascii_alnum, char_is_ws,
};

verus! {

// ----------------------------------------------------------------------
// Line counts and heights.
// ----------------------------------------------------------------------

/// How tall a code block may grow: a finished block stops at 18 lines, a
/// block that is still streaming grows with its content.
#[derive(Clone, Copy, Debug, PartialEq, Eq)]
pub enum CodeHeightMode {
    Stable,
    Live,
}

/// The number of `'\n'` characters.
pub open spec fn newline_count(s: Seq<char>) -> nat
    decreases s.len(),
{
    if s.len() == 0 {
        0
    } else {
        newline_count(s.drop_last()) + if s.last() == '\n' {
            1nat
        } else {
            0nat
        }
    }
}

/// How many lines `str::lines` yields: one per newline, and one more for a
/// last line that does not end in one.
pub open spec fn lines_count(s: Seq<char>) -> nat {
    if s.len() == 0 {
        0
    } else if s.last() == '\n' {
        newline_count(s)
    } else {
        newline_count(s) + 1
    }
}

/// The lines a code block shows: those of `str::lines`, one more for a
/// trailing newline, and at least one.
pub open spec fn code_lines(s: Seq<char>) -> nat {
    let n = lines_count(s) + if s.len() > 0 && s.last() == '\n' {
        1nat
    } else {
        0nat
    };
    if n == 0 {
        1
    } else {
        n
    }
}

pub proof fn lemma_newline_count_bound(s: Seq<char>)
    ensures
        newline_count(s) <= s.len(),
    decreases s.len(),
{
    if s.len() > 0 {
        lemma_newline_count_bound(s.drop_last());
    }
}

pub fn code_line_count(code: &str) -> (r: usize)
    requires
        code@.len() < usize::MAX,
    ensures
        r == code_lines(code@),
{
    let v = chars_of(code);
    let n = v.len();
    let mut count: usize = 0;
    let mut i: usize = 0;
    while i < n
        invariant
            i <= n == v.len(),
            count == newline_count(v@.subrange(0, i as int)),
            count <= i,
        decreases n - i,
    {
        assert(v@.subrange(0, i + 1).drop_last() =~= v@.subrange(0, i as int));
        if v[i] == '\n' {
            count = count + 1;
        }
        i = i + 1;
    }
    assert(v@.subrange(0, n as int) =~= v@);
    let lines: usize = if n == 0 {
        0
    } else if v[n - 1] == '\n' {
        count
    } else {
        count + 1
    };
    let trailing: usize = if n > 0 && v[n - 1] == '\n' {
        1
    } else {
        0
    };
    let total = lines + trailing;
    if total == 0 {
        1
    } else {
        total
    }
}

pub open spec fn shown_lines(s: Seq<char>, mode: CodeHeightMode) -> int {
    match mode {
        CodeHeightMode::Stable => if code_lines(s) < 18 {
            code_lines(s) as int
        } else {
            18
        },
        CodeHeightMode::Live => code_lines(s) as int,
    }
}

/// Pixel height of a code block: 21 per shown line and 24 more, at least 58.
pub open spec fn code_height_of(s: Seq<char>, mode: CodeHeightMode) -> int {
    let h = shown_lines(s, mode) * 21 + 24;
    if h < 58 {
        58
    } else {
        h
    }
}

pub fn code_height(code: &str, mode: CodeHeightMode) -> (r: i32)
    requires
        code@.len() < usize::MAX,
        mode == CodeHeightMode::Stable || code_lines(code@) * 21 + 24 <= i32::MAX,
    ensures
        r == code_height_of(code@, mode),
{
    let line_count = code_line_count(code);
    let lines: usize = match mode {
        CodeHeightMode::Stable => if line_count < 18 {
            line_count
        } else {
            18
        },
        CodeHeightMode::Live => line_count,
    };
    let lines = lines as i32;
    let h = lines * 21 + 24;
    if h < 58 {
        58
    } else {
        h
    }
}

// ----------------------------------------------------------------------
// Which language a block is in.
// ----------------------------------------------------------------------

/// The characters a language name in a fence's info string may hold.
pub open spec fn is_lang_char(c: char) -> bool {
    is_ascii_alnum(c) || c == '-' || c == '_' || c == '+'
}

pub open spec fn trim_non_lang_start(s: Seq<char>) -> Seq<char>
    decreases s.len(),
{
    if s.len() > 0 && !is_lang_char(s[0]) {
        trim_non_lang_start(s.drop_first())
    } else {
        s
    }
}

pub open spec fn trim_non_lang_end(s: Seq<char>) -> Seq<char>
    decreases s.len(),
{
    if s.len() > 0 && !is_lang_char(s.last()) {
        trim_non_lang_end(s.drop_last())
    } else {
        s
    }
}

/// The first whitespace-separated word, or nothing.
pub open spec fn first_word(s: Seq<char>) -> Seq<char> {
    if words(s).len() > 0 {
        words(s)[0]
    } else {
        Seq::empty()
    }
}

/// The language a fence's info string names: its first word without the
/// characters around it that cannot be part of a name, in lower case.
pub open spec fn explicit_language(info: Seq<char>) -> Seq<char> {
    lower(trim_non_lang_end(trim_non_lang_start(first_word(info))))
}

/// A guess at the language of unlabelled code, from how it begins and what it holds.
pub open spec fn inferred_language(code: Seq<char>) -> Option<Seq<char>> {
    let t = trim_start(code);
    let l = lower(t);
    let js_import = is_prefix("import {"@, l) || (is_prefix("import "@, l) && contains_seq(
        l,
        " from "@,
    ));
    if is_prefix("{"@, t) || is_prefix("["@, t) {
        Some("json"@)
    } else if is_prefix("<!doctype html"@, t) || is_prefix("<html"@, t) || contains_seq(
        l,
        "</html>"@,
    ) {
        Some("html"@)
    } else if is_prefix("select "@, l) || is_prefix("with "@, l) || is_prefix("insert "@, l)
        || is_prefix("update "@, l) {
        Some("sql"@)
    } else if is_prefix("#!/bin/"@, l) || contains_seq(l, "\napt "@) || contains_seq(
        l,
        "\ncargo "@,
    ) || contains_seq(l, "\ngit "@) {
        Some("bash"@)
    } else if contains_seq(l, "function "@) || contains_seq(l, "=>"@) || contains_seq(
        l,
        "console.log"@,
    ) || is_prefix("const "@, l) || is_prefix("let "@, l) || js_import {
        Some("javascript"@)
    } else if contains_seq(l, "\ndef "@) || is_prefix("def "@, l) || is_prefix("class "@, l) || (
    is_prefix("import "@, l) && !js_import) || is_prefix("from "@, l) {
        Some("python"@)
    } else if contains_seq(l, "\nfn "@) || is_prefix("fn "@, l) || contains_seq(l, "\npub fn "@)
        || is_prefix("pub fn "@, l) || contains_seq(l, "\nimpl "@) || is_prefix("impl "@, l)
        || is_prefix("pub struct "@, l) || is_prefix("struct "@, l) || is_prefix("#[derive"@, l)
        || is_prefix("use std::"@, l) {
        Some("rust"@)
    } else {
        None
    }
}

/// The language of a code block: the one its fence names, else a guess, else none.
pub open spec fn code_language_of(info: Seq<char>, code: Seq<char>) -> Seq<char> {
    let e = explicit_language(info);
    if e.len() > 0 {
        e
    } else {
        match inferred_language(code) {
            Some(x) => x,
            None => Seq::empty(),
        }
    }
}

pub open spec fn opt_str_view(o: Option<&str>) -> Option<Seq<char>> {
    match o {
        Some(s) => Some(s@),
        None => None,
    }
}

fn has_prefix(v: &[char], p: &str) -> (r: bool)
    ensures
        r == is_prefix(p@, v@),
{
    let pv = chars_of(p);
    starts_with(v, pv.as_slice())
}

fn has_part(v: &[char], p: &str) -> (r: bool)
    ensures
        r == contains_seq(v@, p@),
{
    let pv = chars_of(p);
    contains(v, pv.as_slice())
}

/// Index of the first character that is not whitespace.
fn trim_start_index(v: &[char]) -> (a: usize)
    ensures
        a <= v.len(),
        v@.subrange(a as int, v.len() as int) == trim_start(v@),
{
    let n = v.len();
    let mut a: usize = 0;
    while a < n && char_is_ws(v[a])
        invariant
            a <= n == v.len(),
            forall|j: int| 0 <= j < a ==> is_ws(#[trigger] v@[j]),
        decreases n - a,
    {
        a = a + 1;
    }
    proof {
        lemma_trim_start_skip(v@, a as int);
        let t = v@.subrange(a as int, n as int);
        if t.len() > 0 {
            assert(t[0] == v@[a as int]);
        }
        assert(trim_start(t) == t);
    }
    a
}

pub fn inferred_code_language(code: &str) -> (r: Option<&'static str>)
    ensures
        opt_str_view(r) == inferred_language(code@),
{
    let v = chars_of(code);
    let a = trim_start_index(v.as_slice());
    let t = chars_range(v.as_slice(), a, v.len());
    let l = lower_chars(t.as_slice());
    let t = t.as_slice();
    let l = l.as_slice();
    let js_import = has_prefix(l, "import {") || (has_prefix(l, "import ") && has_part(l, " from "));
    if has_prefix(t, "{") || has_prefix(t, "[") {
        return Some("json");
    }
    if has_prefix(t, "<!doctype html") || has_prefix(t, "<html") || has_part(l, "</html>") {
        return Some("html");
    }
    if has_prefix(l, "select ") || has_prefix(l, "with ") || has_prefix(l, "insert ") || has_prefix(
        l,
        "update ",
    ) {
        return Some("sql");
    }
    if has_prefix(l, "#!/bin/") || has_part(l, "\napt ") || has_part(l, "\ncargo ") || has_part(
        l,
        "\ngit ",
    ) {
        return Some("bash");
    }
    if has_part(l, "function ") || has_part(l, "=>") || has_part(l, "console.log") || has_prefix(
        l,
        "const ",
    ) || has_prefix(l, "let ") || js_import {
        return Some("javascript");
    }
    if has_part(l, "\ndef ") || has_prefix(l, "def ") || has_prefix(l, "class ") || (has_prefix(
        l,
        "import ",
    ) && !js_import) || has_prefix(l, "from ") {
        return Some("python");
    }
    if has_part(l, "\nfn ") || has_prefix(l, "fn ") || has_part(l, "\npub fn ") || has_prefix(
        l,
        "pub fn ",
    ) || has_part(l, "\nimpl ") || has_prefix(l, "impl ") || has_prefix(l, "pub struct ")
        || has_prefix(l, "struct ") || has_prefix(l, "#[derive") || has_prefix(l, "use std::") {
        return Some("rust");
    }
    None
}

fn lang_char(c: char) -> (r: bool)
    ensures
        r == is_lang_char(c),
{
    char_is_ascii_alnum(c) || c == '-' || c == '_' || c == '+'
}

proof fn lemma_trim_non_lang_start_skip(s: Seq<char>, i: int)
    requires
        0 <= i <= s.len(),
        forall|j: int| 0 <= j < i ==> !is_lang_char(#[trigger] s[j]),
    ensures
        trim_non_lang_start(s) == trim_non_lang_start(s.subrange(i, s.len() as int)),
    decreases i,
{
    if i == 0 {
        assert(s.subrange(0, s.len() as int) =~= s);
    } else {
        assert(!is_lang_char(s[0]));
        let t = s.drop_first();
        assert forall|j: int| 0 <= j < i - 1 implies !is_lang_char(#[trigger] t[j]) by {
            assert(t[j] == s[j + 1]);
        }
        lemma_trim_non_lang_start_skip(t, i - 1);
        assert(t.subrange(i - 1, t.len() as int) =~= s.subrange(i, s.len() as int));
    }
}

proof fn lemma_trim_non_lang_end_skip(s: Seq<char>, k: int)
    requires
        0 <= k <= s.len(),
        forall|j: int| k <= j < s.len() ==> !is_lang_char(#[trigger] s[j]),
    ensures
        trim_non_lang_end(s) == trim_non_lang_end(s.subrange(0, k)),
    decreases s.len() - k,
{
    if k == s.len() {
        assert(s.subrange(0, k) =~= s);
    } else {
        assert(!is_lang_char(s.last()));
        let t = s.drop_last();
        assert forall|j: int| k <= j < t.len() implies !is_lang_char(#[trigger] t[j]) by {
            assert(t[j] == s[j]);
        }
        lemma_trim_non_lang_end_skip(t, k);
        assert(t.subrange(0, k) =~= s.subrange(0, k));
    }
}

/// Index range left after trimming the characters that cannot be part of a name.
fn lang_bounds(v: &[char]) -> (r: (usize, usize))
    ensures
        r.0 <= r.1 <= v.len(),
        trim_non_lang_end(trim_non_lang_start(v@)) == v@.subrange(r.0 as int, r.1 as int),
{
    let n = v.len();
    let mut a: usize = 0;
    while a < n && !lang_char(v[a])
        invariant
            a <= n == v.len(),
            forall|j: int| 0 <= j < a ==> !is_lang_char(#[trigger] v@[j]),
        decreases n - a,
    {
        a = a + 1;
    }
    proof {
        lemma_trim_non_lang_start_skip(v@, a as int);
    }
    let ghost t = v@.subrange(a as int, n as int);
    assert(trim_non_lang_start(t) == t);
    let mut b: usize = n;
    while b > a && !lang_char(v[b - 1])
        invariant
            a <= b <= n == v.len(),
            t == v@.subrange(a as int, n as int),
            forall|j: int| b <= j < n ==> !is_lang_char(#[trigger] v@[j]),
        decreases b,
    {
        b = b - 1;
    }
    proof {
        assert forall|j: int| (b - a) <= j < t.len() implies !is_lang_char(#[trigger] t[j]) by {
            assert(t[j] == v@[j + a]);
        }
        lemma_trim_non_lang_end_skip(t, b - a);
        assert(t.subrange(0, b - a) =~= v@.subrange(a as int, b as int));
    }
    (a, b)
}

/// The language of a code block from its fence's info string and its code.
pub fn code_language(info: &str, code: &str) -> (r: String)
    ensures
        r@ == code_language_of(info@, code@),
{
    let parts = split_words(info);
    let first: Vec<char> = if parts.len() > 0 {
        chars_of(parts[0].as_str())
    } else {
        Vec::new()
    };
    proof {
        if parts.len() > 0 {
            assert(string_views(parts@)[0] == parts@[0]@);
        }
        assert(first@ == first_word(info@));
    }
    let (a, b) = lang_bounds(first.as_slice());
    let kept = chars_range(first.as_slice(), a, b);
    let lowered = lower_chars(kept.as_slice());
    if lowered.len() > 0 {
        string_from_chars(lowered.as_slice())
    } else {
        match inferred_code_language(code) {
            Some(x) => to_owned_string(x),
            None => String::new(),
        }
    }
}

// ----------------------------------------------------------------------
// Names of languages.
// ----------------------------------------------------------------------

/// The languages that code blocks know by name.
#[derive(Clone, Copy, Debug, PartialEq, Eq)]
pub enum KnownLanguage {
    Shell,
    C,
    Cpp,
    CSharp,
    Css,
    Go,
    Html,
    Java,
    JavaScript,
    Json,
    Kotlin,
    Markdown,
    Php,
    Python,
    Ruby,
    Rust,
    Sql,
    Swift,
    Toml,
    TypeScript,
    Xml,
    Yaml,
}

/// The language a name or alias stands for.
pub open spec fn known_language(l: Seq<char>) -> Option<KnownLanguage> {
    if l == "bash"@ || l == "shell"@ || l == "sh"@ || l == "zsh"@ {
        Some(KnownLanguage::Shell)
    } else if l == "c"@ {
        Some(KnownLanguage::C)
    } else if l == "cpp"@ || l == "c++"@ {
        Some(KnownLanguage::Cpp)
    } else if l == "csharp"@ || l == "cs"@ {
        Some(KnownLanguage::CSharp)
    } else if l == "css"@ {
        Some(KnownLanguage::Css)
    } else if l == "go"@ || l == "golang"@ {
        Some(KnownLanguage::Go)
    } else if l == "html"@ {
        Some(KnownLanguage::Html)
    } else if l == "java"@ {
        Some(KnownLanguage::Java)
    } else if l == "javascript"@ || l == "js"@ || l == "jsx"@ {
        Some(KnownLanguage::JavaScript)
    } else if l == "json"@ {
        Some(KnownLanguage::Json)
    } else if l == "kotlin"@ || l == "kt"@ {
        Some(KnownLanguage::Kotlin)
    } else if l == "markdown"@ || l == "md"@ {
        Some(KnownLanguage::Markdown)
    } else if l == "php"@ {
        Some(KnownLanguage::Php)
    } else if l == "python"@ || l == "py"@ {
        Some(KnownLanguage::Python)
    } else if l == "ruby"@ || l == "rb"@ {
        Some(KnownLanguage::Ruby)
    } else if l == "rust"@ || l == "rs"@ {
        Some(KnownLanguage::Rust)
    } else if l == "sql"@ {
        Some(KnownLanguage::Sql)
    } else if l == "swift"@ {
        Some(KnownLanguage::Swift)
    } else if l == "toml"@ {
        Some(KnownLanguage::Toml)
    } else if l == "typescript"@ || l == "ts"@ || l == "tsx"@ {
        Some(KnownLanguage::TypeScript)
    } else if l == "xml"@ {
        Some(KnownLanguage::Xml)
    } else if l == "yaml"@ || l == "yml"@ {
        Some(KnownLanguage::Yaml)
    } else {
        None
    }
}

pub fn known_language_of(language: &str) -> (r: Option<KnownLanguage>)
    ensures
        r == known_language(language@),
{
    if str_eq(language, "bash") || str_eq(language, "shell") || str_eq(language, "sh") || str_eq(
        language,
        "zsh",
    ) {
        Some(KnownLanguage::Shell)
    } else if str_eq(language, "c") {
        Some(KnownLanguage::C)
    } else if str_eq(language, "cpp") || str_eq(language, "c++") {
        Some(KnownLanguage::Cpp)
    } else if str_eq(language, "csharp") || str_eq(language, "cs") {
        Some(KnownLanguage::CSharp)
    } else if str_eq(language, "css") {
        Some(KnownLanguage::Css)
    } else if str_eq(language, "go") || str_eq(language, "golang") {
        Some(KnownLanguage::Go)
    } else if str_eq(language, "html") {
        Some(KnownLanguage::Html)
    } else if str_eq(language, "java") {
        Some(KnownLanguage::Java)
    } else if str_eq(language, "javascript") || str_eq(language, "js") || str_eq(language, "jsx") {
        Some(KnownLanguage::JavaScript)
    } else if str_eq(language, "json") {
        Some(KnownLanguage::Json)
    } else if str_eq(language, "kotlin") || str_eq(language, "kt") {
        Some(KnownLanguage::Kotlin)
    } else if str_eq(language, "markdown") || str_eq(language, "md") {
        Some(KnownLanguage::Markdown)
    } else if str_eq(language, "php") {
        Some(KnownLanguage::Php)
    } else if str_eq(language, "python") || str_eq(language, "py") {
        Some(KnownLanguage::Python)
    } else if str_eq(language, "ruby") || str_eq(language, "rb") {
        Some(KnownLanguage::Ruby)
    } else if str_eq(language, "rust") || str_eq(language, "rs") {
        Some(KnownLanguage::Rust)
    } else if str_eq(language, "sql") {
        Some(KnownLanguage::Sql)
    } else if str_eq(language, "swift") {
        Some(KnownLanguage::Swift)
    } else if str_eq(language, "toml") {
        Some(KnownLanguage::Toml)
    } else if str_eq(language, "typescript") || str_eq(language, "ts") || str_eq(language, "tsx") {
        Some(KnownLanguage::TypeScript)
    } else if str_eq(language, "xml") {
        Some(KnownLanguage::Xml)
    } else if str_eq(language, "yaml") || str_eq(language, "yml") {
        Some(KnownLanguage::Yaml)
    } else {
        None
    }
}

/// The label a known language is shown under (C has none of its own).
pub open spec fn label_name(k: KnownLanguage) -> Option<Seq<char>> {
    match k {
        KnownLanguage::Shell => Some("Shell"@),
        KnownLanguage::C => None,
        KnownLanguage::Cpp => Some("C++"@),
        KnownLanguage::CSharp => Some("C#"@),
        KnownLanguage::Css => Some("CSS"@),
        KnownLanguage::Go => Some("Go"@),
        KnownLanguage::Html => Some("HTML"@),
        KnownLanguage::Java => Some("Java"@),
        KnownLanguage::JavaScript => Some("JavaScript"@),
        KnownLanguage::Json => Some("JSON"@),
        KnownLanguage::Kotlin => Some("Kotlin"@),
        KnownLanguage::Markdown => Some("Markdown"@),
        KnownLanguage::Php => Some("PHP"@),
        KnownLanguage::Python => Some("Python"@),
        KnownLanguage::Ruby => Some("Ruby"@),
        KnownLanguage::Rust => Some("Rust"@),
        KnownLanguage::Sql => Some("SQL"@),
        KnownLanguage::Swift => Some("Swift"@),
        KnownLanguage::Toml => Some("TOML"@),
        KnownLanguage::TypeScript => Some("TypeScript"@),
        KnownLanguage::Xml => Some("XML"@),
        KnownLanguage::Yaml => Some("YAML"@),
    }
}

fn label_name_of(k: KnownLanguage) -> (r: Option<&'static str>)
    ensures
        opt_str_view(r) == label_name(k),
{
    match k {
        KnownLanguage::Shell => Some("Shell"),
        KnownLanguage::C => None,
        KnownLanguage::Cpp => Some("C++"),
        KnownLanguage::CSharp => Some("C#"),
        KnownLanguage::Css => Some("CSS"),
        KnownLanguage::Go => Some("Go"),
        KnownLanguage::Html => Some("HTML"),
        KnownLanguage::Java => Some("Java"),
        KnownLanguage::JavaScript => Some("JavaScript"),
        KnownLanguage::Json => Some("JSON"),
        KnownLanguage::Kotlin => Some("Kotlin"),
        KnownLanguage::Markdown => Some("Markdown"),
        KnownLanguage::Php => Some("PHP"),
        KnownLanguage::Python => Some("Python"),
        KnownLanguage::Ruby => Some("Ruby"),
        KnownLanguage::Rust => Some("Rust"),
        KnownLanguage::Sql => Some("SQL"),
        KnownLanguage::Swift => Some("Swift"),
        KnownLanguage::Toml => Some("TOML"),
        KnownLanguage::TypeScript => Some("TypeScript"),
        KnownLanguage::Xml => Some("XML"),
        KnownLanguage::Yaml => Some("YAML"),
    }
}

/// What `char::to_uppercase` yields for a character.
pub uninterp spec fn char_uppercase(c: char) -> Seq<char>;

/// `char::to_uppercase`, collected into a string. Its result is named by
/// `char_uppercase`; for an ASCII character it is the ASCII upper-case letter
/// (std documents the mapping as Unicode's, which agrees with ASCII there).
#[verifier::external_body]
fn uppercase_of(c: char) -> (r: String)
    ensures
        r@ == char_uppercase(c),
        (c as u32) < 128 ==> r@ == seq![upper_char(c)],
{
    c.to_uppercase().collect()
}

/// A word with its first character in upper case.
pub open spec fn title_case(w: Seq<char>) -> Seq<char> {
    if w.len() == 0 {
        Seq::empty()
    } else {
        char_uppercase(w[0]) + w.drop_first()
    }
}

pub fn title_word(value: &str) -> (r: String)
    ensures
        r@ == title_case(value@),
{
    let v = chars_of(value);
    if v.len() == 0 {
        return String::new();
    }
    let mut s = uppercase_of(v[0]);
    let rest = crate::text::string_from_range(v.as_slice(), 1, v.len());
    push_str(&mut s, rest.as_str());
    assert(v@.subrange(1, v.len() as int) =~= v@.drop_first());
    s
}

/// The label of a language no table names: its pieces between `-` and `_`,
/// each with a capital first letter, joined by spaces.
pub open spec fn fallback_label(l: Seq<char>) -> Seq<char> {
    join(title_cases(pieces(l, '-', '_')), " "@)
}

pub open spec fn title_cases(ws: Seq<Seq<char>>) -> Seq<Seq<char>> {
    ws.map_values(|w: Seq<char>| title_case(w))
}

pub open spec fn language_label(l: Seq<char>) -> Seq<char> {
    if l == ""@ || l == "text"@ || l == "txt"@ {
        "Text"@
    } else if known_language(l) is Some && label_name(known_language(l).unwrap()) is Some {
        label_name(known_language(l).unwrap()).unwrap()
    } else {
        fallback_label(l)
    }
}

pub fn language_label_text(language: &str) -> (r: String)
    ensures
        r@ == language_label(language@),
{
    if str_eq(language, "") || str_eq(language, "text") || str_eq(language, "txt") {
        return to_owned_string("Text");
    }
    match known_language_of(language) {
        Some(k) => match label_name_of(k) {
            Some(name) => {
                return to_owned_string(name);
            },
            None => {},
        },
        None => {},
    }
    let v = chars_of(language);
    let parts = split_pieces(v.as_slice(), '-', '_');
    let mut titled: Vec<String> = Vec::new();
    let mut i: usize = 0;
    while i < parts.len()
        invariant
            i <= parts.len(),
            string_views(titled@) == title_cases(string_views(parts@).subrange(0, i as int)),
        decreases parts.len() - i,
    {
        let ghost before = titled@;
        let w = title_word(parts[i].as_str());
        titled.push(w);
        i = i + 1;
        proof {
            let a = string_views(titled@);
            let b = title_cases(string_views(parts@).subrange(0, i as int));
            let b0 = title_cases(string_views(parts@).subrange(0, i - 1));
            assert(string_views(before) == b0);
            assert(b0.len() == i - 1);
            assert(before.len() == i - 1);
            assert(titled@ == before.push(w));
            assert(a.len() == i);
            assert(b.len() == i);
            assert forall|j: int| 0 <= j < a.len() implies a[j] == b[j] by {
                if j < i - 1 {
                    assert(a[j] == string_views(before)[j]);
                } else {
                    assert(a[j] == w@);
                    assert(string_views(parts@)[j] == parts@[j]@);
                }
            }
            assert(a =~= b);
        }
    }
    assert(string_views(parts@).subrange(0, parts.len() as int) =~= string_views(parts@));
    join_strings(titled.as_slice(), " ")
}

/// The names a syntax highlighter may know a language by, in the order to try them.
pub open spec fn candidates(k: KnownLanguage) -> Seq<Seq<char>> {
    match k {
        KnownLanguage::Shell => seq!["sh"@, "bash"@],
        KnownLanguage::C => seq!["c"@],
        KnownLanguage::Cpp => seq!["cpp"@, "c++"@],
        KnownLanguage::CSharp => seq!["csharp"@, "cs"@],
        KnownLanguage::Css => seq!["css"@],
        KnownLanguage::Go => seq!["go"@],
        KnownLanguage::Html => seq!["html"@],
        KnownLanguage::Java => seq!["java"@],
        KnownLanguage::JavaScript => seq!["js"@, "javascript"@],
        KnownLanguage::Json => seq!["json"@],
        KnownLanguage::Kotlin => seq!["kotlin"@],
        KnownLanguage::Markdown => seq!["markdown"@],
        KnownLanguage::Php => seq!["php"@],
        KnownLanguage::Python => seq!["python3"@, "python"@],
        KnownLanguage::Ruby => seq!["ruby"@],
        KnownLanguage::Rust => seq!["rust"@],
        KnownLanguage::Sql => seq!["sql"@],
        KnownLanguage::Swift => seq!["swift"@],
        KnownLanguage::Toml => seq!["toml"@],
        KnownLanguage::TypeScript => seq!["typescript"@, "typescript-js"@],
        KnownLanguage::Xml => seq!["xml"@],
        KnownLanguage::Yaml => seq!["yaml"@],
    }
}

pub open spec fn str_views(v: Seq<&str>) -> Seq<Seq<char>> {
    v.map_values(|s: &str| s@)
}

fn candidates_of(k: KnownLanguage) -> (r: Vec<&'static str>)
    ensures
        str_views(r@) == candidates(k),
{
    let r: Vec<&'static str> = match k {
        KnownLanguage::Shell => vec!["sh", "bash"],
        KnownLanguage::C => vec!["c"],
        KnownLanguage::Cpp => vec!["cpp", "c++"],
        KnownLanguage::CSharp => vec!["csharp", "cs"],
        KnownLanguage::Css => vec!["css"],
        KnownLanguage::Go => vec!["go"],
        KnownLanguage::Html => vec!["html"],
        KnownLanguage::Java => vec!["java"],
        KnownLanguage::JavaScript => vec!["js", "javascript"],
        KnownLanguage::Json => vec!["json"],
        KnownLanguage::Kotlin => vec!["kotlin"],
        KnownLanguage::Markdown => vec!["markdown"],
        KnownLanguage::Php => vec!["php"],
        KnownLanguage::Python => vec!["python3", "python"],
        KnownLanguage::Ruby => vec!["ruby"],
        KnownLanguage::Rust => vec!["rust"],
        KnownLanguage::Sql => vec!["sql"],
        KnownLanguage::Swift => vec!["swift"],
        KnownLanguage::Toml => vec!["toml"],
        KnownLanguage::TypeScript => vec!["typescript", "typescript-js"],
        KnownLanguage::Xml => vec!["xml"],
        KnownLanguage::Yaml => vec!["yaml"],
    };
    assert(str_views(r@) =~= candidates(k));
    r
}

/// The highlighter names to try for a language; none for an unknown one.
pub fn language_candidates(language: &str) -> (r: Vec<&'static str>)
    ensures
        str_views(r@) == match known_language(language@) {
            Some(k) => candidates(k),
            None => Seq::empty(),
        },
{
    match known_language_of(language) {
        Some(k) => candidates_of(k),
        None => {
            let r: Vec<&'static str> = Vec::new();
            assert(str_views(r@) =~= Seq::<Seq<char>>::empty());
            r
        },
    }
}

/// The file extension a language's files carry.
pub open spec fn extension_of(k: KnownLanguage) -> Seq<char> {
    match k {
        KnownLanguage::Shell => "sh"@,
        KnownLanguage::C => "c"@,
        KnownLanguage::Cpp => "cpp"@,
        KnownLanguage::CSharp => "cs"@,
        KnownLanguage::Css => "css"@,
        KnownLanguage::Go => "go"@,
        KnownLanguage::Html => "html"@,
        KnownLanguage::Java => "java"@,
        KnownLanguage::JavaScript => "js"@,
        KnownLanguage::Json => "json"@,
        KnownLanguage::Kotlin => "kt"@,
        KnownLanguage::Markdown => "md"@,
        KnownLanguage::Php => "php"@,
        KnownLanguage::Python => "py"@,
        KnownLanguage::Ruby => "rb"@,
        KnownLanguage::Rust => "rs"@,
        KnownLanguage::Sql => "sql"@,
        KnownLanguage::Swift => "swift"@,
        KnownLanguage::Toml => "toml"@,
        KnownLanguage::TypeScript => "ts"@,
        KnownLanguage::Xml => "xml"@,
        KnownLanguage::Yaml => "yaml"@,
    }
}

pub fn language_extension(language: &str) -> (r: Option<&'static str>)
    ensures
        opt_str_view(r) == match known_language(language@) {
            Some(k) => Some(extension_of(k)),
            None => None,
        },
{
    match known_language_of(language) {
        Some(k) => Some(
            match k {
                KnownLanguage::Shell => "sh",
                KnownLanguage::C => "c",
                KnownLanguage::Cpp => "cpp",
                KnownLanguage::CSharp => "cs",
                KnownLanguage::Css => "css",
                KnownLanguage::Go => "go",
                KnownLanguage::Html => "html",
                KnownLanguage::Java => "java",
                KnownLanguage::JavaScript => "js",
                KnownLanguage::Json => "json",
                KnownLanguage::Kotlin => "kt",
                KnownLanguage::Markdown => "md",
                KnownLanguage::Php => "php",
                KnownLanguage::Python => "py",
                KnownLanguage::Ruby => "rb",
                KnownLanguage::Rust => "rs",
                KnownLanguage::Sql => "sql",
                KnownLanguage::Swift => "swift",
                KnownLanguage::Toml => "toml",
                KnownLanguage::TypeScript => "ts",
                KnownLanguage::Xml => "xml",
                KnownLanguage::Yaml => "yaml",
            },
        ),
        None => None,
    }
}

/// A finished code block is between 58 and 402 pixels tall.
pub proof fn lemma_stable_height_bounds(s: Seq<char>)
    ensures
        58 <= code_height_of(s, CodeHeightMode::Stable) <= 18 * 21 + 24,
{
}

} // verus!
