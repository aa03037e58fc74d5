//! Character-level text helpers shared by every validator.
//!
//! Strings are modelled by their `Seq<char>` view; `str::len` is the length of
//! the UTF-8 encoding (`encode_utf8` of vstd).
use vstd::prelude::*;

verus! {

/// Unicode `White_Space`, as used by `char::is_whitespace` and `str::trim`.
pub open spec fn is_ws(c: char) -> bool {
    ||| ('\t' <= c && c <= '\r')
    ||| c == ' '
    ||| c == '\u{85}'
    ||| c == '\u{a0}'
    ||| c == '\u{1680}'
    ||| ('\u{2000}' <= c && c <= '\u{200a}')
    ||| c == '\u{2028}'
    ||| c == '\u{2029}'
    ||| c == '\u{202f}'
    ||| c == '\u{205f}'
    ||| c == '\u{3000}'
}

/// The general category `Cc`, as used by `char::is_control`.
pub open spec fn is_ctrl(c: char) -> bool {
    ||| c <= '\u{1f}'
    ||| ('\u{7f}' <= c && c <= '\u{9f}')
}

/// A control character other than newline, carriage return and tab.
pub open spec fn is_invalid_text_char(c: char) -> bool {
    is_ctrl(c) && c != '\n' && c != '\r' && c != '\t'
}

pub open spec fn is_ascii_alnum(c: char) -> bool {
    ||| ('0' <= c && c <= '9')
    ||| ('a' <= c && c <= 'z')
    ||| ('A' <= c && c <= 'Z')
}

pub open spec fn is_ascii_digit(c: char) -> bool {
    '0' <= c && c <= '9'
}

pub open spec fn is_ascii_hexdigit(c: char) -> bool {
    ||| ('0' <= c && c <= '9')
    ||| ('a' <= c && c <= 'f')
    ||| ('A' <= c && c <= 'F')
}

pub open spec fn is_ascii_alpha(c: char) -> bool {
    ('a' <= c && c <= 'z') || ('A' <= c && c <= 'Z')
}

/// `char::to_ascii_lowercase`.
pub open spec fn lower_char(c: char) -> char {
    if 'A' <= c && c <= 'Z' {
        ((c as u32) + 32) as char
    } else {
        c
    }
}

/// `char::to_ascii_uppercase`.
pub open spec fn upper_char(c: char) -> char {
    if 'a' <= c && c <= 'z' {
        ((c as u32) - 32) as char
    } else {
        c
    }
}

/// `str::to_ascii_lowercase`.
pub open spec fn lower(s: Seq<char>) -> Seq<char> {
    s.map_values(|c: char| lower_char(c))
}

/// `str::to_ascii_uppercase`.
pub open spec fn upper(s: Seq<char>) -> Seq<char> {
    s.map_values(|c: char| upper_char(c))
}

pub open spec fn has_ctrl(s: Seq<char>) -> bool {
    exists|i: int| 0 <= i < s.len() && is_ctrl(#[trigger] s[i])
}

pub open spec fn has_invalid_text_char(s: Seq<char>) -> bool {
    exists|i: int| 0 <= i < s.len() && is_invalid_text_char(#[trigger] s[i])
}

pub open spec fn contains_char(s: Seq<char>, c: char) -> bool {
    exists|i: int| 0 <= i < s.len() && #[trigger] s[i] == c
}

/// `str::trim_start`.
pub open spec fn trim_start(s: Seq<char>) -> Seq<char>
    decreases s.len(),
{
    if s.len() > 0 && is_ws(s[0]) {
        trim_start(s.drop_first())
    } else {
        s
    }
}

/// `str::trim_end`.
pub open spec fn trim_end(s: Seq<char>) -> Seq<char>
    decreases s.len(),
{
    if s.len() > 0 && is_ws(s.last()) {
        trim_end(s.drop_last())
    } else {
        s
    }
}

/// `str::trim`.
pub open spec fn trim(s: Seq<char>) -> Seq<char> {
    trim_end(trim_start(s))
}

/// `str::trim_start_matches(c)` for one character.
pub open spec fn trim_start_char(s: Seq<char>, c: char) -> Seq<char>
    decreases s.len(),
{
    if s.len() > 0 && s[0] == c {
        trim_start_char(s.drop_first(), c)
    } else {
        s
    }
}

/// `str::trim_end_matches(c)` for one character.
pub open spec fn trim_end_char(s: Seq<char>, c: char) -> Seq<char>
    decreases s.len(),
{
    if s.len() > 0 && s.last() == c {
        trim_end_char(s.drop_last(), c)
    } else {
        s
    }
}

pub open spec fn is_prefix(p: Seq<char>, s: Seq<char>) -> bool {
    p.len() <= s.len() && s.subrange(0, p.len() as int) == p
}

pub open spec fn is_suffix(p: Seq<char>, s: Seq<char>) -> bool {
    p.len() <= s.len() && s.subrange(s.len() - p.len(), s.len() as int) == p
}

/// `str::contains` for a string pattern.
pub open spec fn contains_seq(s: Seq<char>, p: Seq<char>) -> bool {
    exists|i: int| 0 <= i && i + p.len() <= s.len() && #[trigger] s.subrange(i, i + p.len()) == p
}

/// Decimal digits of a natural number, without leading zeros.
pub open spec fn decimal(n: nat) -> Seq<char>
    decreases n,
{
    if n < 10 {
        seq![digit_char(n)]
    } else {
        decimal(n / 10).push(digit_char(n % 10))
    }
}

pub open spec fn digit_char(d: nat) -> char {
    ((d + 48) as u32) as char
}

/// Number of bytes in the UTF-8 encoding of one character.
pub open spec fn char_utf8_len(c: char) -> nat {
    if (c as u32) < 0x80 {
        1
    } else if (c as u32) < 0x800 {
        2
    } else if (c as u32) < 0x10000 {
        3
    } else {
        4
    }
}

/// Number of bytes in the UTF-8 encoding of a text (`str::len`).
pub open spec fn utf8_len(s: Seq<char>) -> nat
    decreases s.len(),
{
    if s.len() == 0 {
        0
    } else {
        utf8_len(s.drop_last()) + char_utf8_len(s.last())
    }
}

pub proof fn lemma_utf8_len_prefix(s: Seq<char>, i: int)
    requires
        0 <= i <= s.len(),
    ensures
        utf8_len(s.subrange(0, i)) <= utf8_len(s),
    decreases s.len() - i,
{
    if i < s.len() {
        lemma_utf8_len_prefix(s, i + 1);
        assert(s.subrange(0, i + 1).drop_last() =~= s.subrange(0, i));
    } else {
        assert(s.subrange(0, i) =~= s);
    }
}

/// `str::split(sep)` for one character, with the piece collected so far.
pub open spec fn split_from(s: Seq<char>, sep: char, cur: Seq<char>) -> Seq<Seq<char>>
    decreases s.len(),
{
    if s.len() == 0 {
        seq![cur]
    } else if s[0] == sep {
        seq![cur] + split_from(s.drop_first(), sep, Seq::empty())
    } else {
        split_from(s.drop_first(), sep, cur.push(s[0]))
    }
}

/// `str::split(sep)` for one character: the pieces between separators.
pub open spec fn split(s: Seq<char>, sep: char) -> Seq<Seq<char>> {
    split_from(s, sep, Seq::empty())
}

/// `join(sep)` of pieces.
pub open spec fn join(parts: Seq<Seq<char>>, sep: Seq<char>) -> Seq<char>
    decreases parts.len(),
{
    if parts.len() == 0 {
        Seq::empty()
    } else if parts.len() == 1 {
        parts[0]
    } else {
        join(parts.drop_last(), sep) + sep + parts.last()
    }
}

// ----------------------------------------------------------------------
// Lemmas about trimming.
// ----------------------------------------------------------------------

pub proof fn lemma_trim_start_skip(s: Seq<char>, i: int)
    requires
        0 <= i <= s.len(),
        forall|j: int| 0 <= j < i ==> is_ws(#[trigger] s[j]),
    ensures
        trim_start(s) == trim_start(s.subrange(i, s.len() as int)),
    decreases i,
{
    if i == 0 {
        assert(s.subrange(0, s.len() as int) =~= s);
    } else {
        assert(is_ws(s[0]));
        let t = s.drop_first();
        assert forall|j: int| 0 <= j < i - 1 implies is_ws(#[trigger] t[j]) by {
            assert(t[j] == s[j + 1]);
        }
        lemma_trim_start_skip(t, i - 1);
        assert(t.subrange(i - 1, t.len() as int) =~= s.subrange(i, s.len() as int));
    }
}

pub proof fn lemma_trim_end_skip(s: Seq<char>, k: int)
    requires
        0 <= k <= s.len(),
        forall|j: int| k <= j < s.len() ==> is_ws(#[trigger] s[j]),
    ensures
        trim_end(s) == trim_end(s.subrange(0, k)),
    decreases s.len() - k,
{
    if k == s.len() {
        assert(s.subrange(0, k) =~= s);
    } else {
        assert(is_ws(s.last()));
        let t = s.drop_last();
        assert forall|j: int| k <= j < t.len() implies is_ws(#[trigger] t[j]) by {
            assert(t[j] == s[j]);
        }
        lemma_trim_end_skip(t, k);
        assert(t.subrange(0, k) =~= s.subrange(0, k));
    }
}

pub proof fn lemma_trim_start_char_skip(s: Seq<char>, c: char, i: int)
    requires
        0 <= i <= s.len(),
        forall|j: int| 0 <= j < i ==> #[trigger] s[j] == c,
    ensures
        trim_start_char(s, c) == trim_start_char(s.subrange(i, s.len() as int), c),
    decreases i,
{
    if i == 0 {
        assert(s.subrange(0, s.len() as int) =~= s);
    } else {
        let t = s.drop_first();
        assert forall|j: int| 0 <= j < i - 1 implies #[trigger] t[j] == c by {
            assert(t[j] == s[j + 1]);
        }
        lemma_trim_start_char_skip(t, c, i - 1);
        assert(t.subrange(i - 1, t.len() as int) =~= s.subrange(i, s.len() as int));
    }
}

pub proof fn lemma_trim_end_char_skip(s: Seq<char>, c: char, k: int)
    requires
        0 <= k <= s.len(),
        forall|j: int| k <= j < s.len() ==> #[trigger] s[j] == c,
    ensures
        trim_end_char(s, c) == trim_end_char(s.subrange(0, k), c),
    decreases s.len() - k,
{
    if k == s.len() {
        assert(s.subrange(0, k) =~= s);
    } else {
        let t = s.drop_last();
        assert forall|j: int| k <= j < t.len() implies #[trigger] t[j] == c by {
            assert(t[j] == s[j]);
        }
        lemma_trim_end_char_skip(t, c, k);
        assert(t.subrange(0, k) =~= s.subrange(0, k));
    }
}

/// The trimmed text is empty exactly when every character is whitespace.
pub proof fn lemma_trim_empty(s: Seq<char>)
    ensures
        (trim(s).len() == 0) == (forall|j: int| 0 <= j < s.len() ==> is_ws(#[trigger] s[j])),
    decreases s.len(),
{
    if s.len() > 0 && is_ws(s[0]) {
        lemma_trim_empty(s.drop_first());
        if forall|j: int| 0 <= j < s.drop_first().len() ==> is_ws(#[trigger] s.drop_first()[j]) {
            assert forall|j: int| 0 <= j < s.len() implies is_ws(#[trigger] s[j]) by {
                if j > 0 {
                    assert(s[j] == s.drop_first()[j - 1]);
                }
            }
        } else {
            let j = choose|j: int| 0 <= j < s.drop_first().len() && !is_ws(#[trigger] s.drop_first()[j]);
            assert(!is_ws(s[j + 1]));
        }
    } else if s.len() > 0 {
        lemma_trim_end_keeps_first(s);
    }
}

/// Trimming the end of a text that starts with a non-space keeps that character.
pub proof fn lemma_trim_end_keeps_first(s: Seq<char>)
    requires
        s.len() > 0,
        !is_ws(s[0]),
    ensures
        trim_end(s).len() > 0,
        trim_end(s)[0] == s[0],
    decreases s.len(),
{
    if is_ws(s.last()) {
        assert(s.len() > 1);
        lemma_trim_end_keeps_first(s.drop_last());
    }
}

pub proof fn lemma_trim_start_is_suffix(s: Seq<char>)
    ensures
        trim_start(s).len() <= s.len(),
        trim_start(s) == s.subrange(s.len() - trim_start(s).len(), s.len() as int),
    decreases s.len(),
{
    if s.len() > 0 && is_ws(s[0]) {
        lemma_trim_start_is_suffix(s.drop_first());
        let t = trim_start(s.drop_first());
        assert(s.drop_first().subrange(s.len() - 1 - t.len(), s.len() - 1) =~= s.subrange(
            s.len() - t.len(),
            s.len() as int,
        ));
    } else {
        assert(s.subrange(0, s.len() as int) =~= s);
    }
}

pub proof fn lemma_trim_end_is_prefix(s: Seq<char>)
    ensures
        trim_end(s).len() <= s.len(),
        trim_end(s) == s.subrange(0, trim_end(s).len() as int),
    decreases s.len(),
{
    if s.len() > 0 && is_ws(s.last()) {
        lemma_trim_end_is_prefix(s.drop_last());
        let t = trim_end(s.drop_last());
        assert(s.drop_last().subrange(0, t.len() as int) =~= s.subrange(0, t.len() as int));
    } else {
        assert(s.subrange(0, s.len() as int) =~= s);
    }
}

/// Characters of the trimmed text are characters of the text.
pub proof fn lemma_trim_chars(s: Seq<char>)
    ensures
        forall|j: int|
            0 <= j < trim(s).len() ==> exists|k: int| 0 <= k < s.len() && s[k] == #[trigger] trim(s)[j],
{
    lemma_trim_start_is_suffix(s);
    let t = trim_start(s);
    lemma_trim_end_is_prefix(t);
    assert forall|j: int| 0 <= j < trim(s).len() implies exists|k: int|
        0 <= k < s.len() && s[k] == #[trigger] trim(s)[j] by {
        let k = s.len() - t.len() + j;
        assert(trim(s)[j] == t[j]);
        assert(t[j] == s[k]);
    }
}

/// Trimming a text with no whitespace at either end leaves it unchanged.
pub proof fn lemma_trim_noop(s: Seq<char>)
    requires
        s.len() == 0 || (!is_ws(s[0]) && !is_ws(s.last())),
    ensures
        trim(s) == s,
{
}

/// The trimmed text neither starts nor ends with whitespace.
pub proof fn lemma_trim_ends(s: Seq<char>)
    ensures
        trim(s).len() == 0 || (!is_ws(trim(s)[0]) && !is_ws(trim(s).last())),
    decreases s.len(),
{
    if s.len() > 0 && is_ws(s[0]) {
        lemma_trim_ends(s.drop_first());
    } else if s.len() > 0 {
        lemma_trim_end_keeps_first(s);
        lemma_trim_end_last(s);
    }
}

pub proof fn lemma_trim_end_last(s: Seq<char>)
    ensures
        trim_end(s).len() == 0 || !is_ws(trim_end(s).last()),
    decreases s.len(),
{
    if s.len() > 0 && is_ws(s.last()) {
        lemma_trim_end_last(s.drop_last());
    }
}

/// `trim` is idempotent.
pub proof fn lemma_trim_idempotent(s: Seq<char>)
    ensures
        trim(trim(s)) == trim(s),
{
    lemma_trim_ends(s);
    lemma_trim_noop(trim(s));
}

/// A join of non-empty parts starts with the first part's first character
/// and ends with the last part's last character.
pub proof fn lemma_join_ends(parts: Seq<Seq<char>>, sep: Seq<char>)
    requires
        parts.len() > 0,
        forall|i: int| 0 <= i < parts.len() ==> (#[trigger] parts[i]).len() > 0,
    ensures
        join(parts, sep).len() > 0,
        join(parts, sep)[0] == parts[0][0],
        join(parts, sep).last() == parts.last().last(),
    decreases parts.len(),
{
    if parts.len() > 1 {
        let init = parts.drop_last();
        assert forall|i: int| 0 <= i < init.len() implies (#[trigger] init[i]).len() > 0 by {
            assert(init[i] == parts[i]);
        }
        lemma_join_ends(init, sep);
        let j = join(init, sep) + sep + parts.last();
        assert(join(parts, sep) == j);
        assert(j[0] == join(init, sep)[0]);
        assert(parts.last() == parts[parts.len() - 1]);
        assert(j.last() == parts.last().last());
    } else {
        assert(join(parts, sep) == parts[0]);
    }
}

// ----------------------------------------------------------------------
// Splitting and joining.
// ----------------------------------------------------------------------

/// `s` holds no `c`.
pub open spec fn no_char(s: Seq<char>, c: char) -> bool {
    forall|i: int| 0 <= i < s.len() ==> #[trigger] s[i] != c
}

/// No part holds `c`.
pub open spec fn parts_without(parts: Seq<Seq<char>>, c: char) -> bool {
    forall|i: int| 0 <= i < parts.len() ==> no_char(#[trigger] parts[i], c)
}

/// The pieces of a split hold no separator.
pub proof fn lemma_split_no_sep(s: Seq<char>, c: char, cur: Seq<char>)
    requires
        no_char(cur, c),
    ensures
        parts_without(split_from(s, c, cur), c),
    decreases s.len(),
{
    if s.len() == 0 {
        assert(split_from(s, c, cur) == seq![cur]);
    } else if s[0] == c {
        lemma_split_no_sep(s.drop_first(), c, Seq::empty());
        let rest = split_from(s.drop_first(), c, Seq::empty());
        assert forall|i: int| 0 <= i < (seq![cur] + rest).len() implies no_char(
            #[trigger] (seq![cur] + rest)[i],
            c,
        ) by {
            if i > 0 {
                assert((seq![cur] + rest)[i] == rest[i - 1]);
            }
        }
    } else {
        let c2 = cur.push(s[0]);
        assert forall|j: int| 0 <= j < c2.len() implies #[trigger] c2[j] != c by {
            if j < cur.len() {
                assert(c2[j] == cur[j]);
            }
        }
        lemma_split_no_sep(s.drop_first(), c, c2);
    }
}

/// A join of two or more parts is the first part, the separator, and the join of the rest.
pub proof fn lemma_join_front(ps: Seq<Seq<char>>, sep: Seq<char>)
    requires
        ps.len() >= 2,
    ensures
        join(ps, sep) == ps[0] + sep + join(ps.drop_first(), sep),
    decreases ps.len(),
{
    if ps.len() == 2 {
        assert(ps.drop_last().len() == 1);
        assert(join(ps.drop_last(), sep) == ps[0]);
        assert(ps.drop_first().len() == 1);
        assert(join(ps.drop_first(), sep) == ps[1]);
    } else {
        let init = ps.drop_last();
        lemma_join_front(init, sep);
        assert(init.drop_first() =~= ps.drop_first().drop_last());
        assert(ps.drop_first().last() == ps.last());
        assert(join(ps.drop_first(), sep) == join(init.drop_first(), sep) + sep + ps.last());
        assert(join(ps, sep) =~= ps[0] + sep + join(ps.drop_first(), sep));
    }
}

/// Text without a separator joins the piece being collected.
pub proof fn lemma_split_plain(a: Seq<char>, c: char, rest: Seq<char>, cur: Seq<char>)
    requires
        no_char(a, c),
    ensures
        split_from(a + rest, c, cur) == split_from(rest, c, cur + a),
    decreases a.len(),
{
    if a.len() == 0 {
        assert(a + rest =~= rest);
        assert(cur + a =~= cur);
    } else {
        let s = a + rest;
        assert(s[0] == a[0]);
        assert(s.drop_first() =~= a.drop_first() + rest);
        assert(no_char(a.drop_first(), c)) by {
            assert forall|i: int| 0 <= i < a.drop_first().len() implies #[trigger] a.drop_first()[i] != c by {
                assert(a.drop_first()[i] == a[i + 1]);
            }
        }
        lemma_split_plain(a.drop_first(), c, rest, cur.push(a[0]));
        assert(cur.push(a[0]) + a.drop_first() =~= cur + a);
    }
}

/// Splitting parts joined by `+` gives the parts back, when none holds a `+`.
/// Splitting parts joined by a separator gives the parts back, when none
/// holds the separator.
pub proof fn lemma_split_join(ps: Seq<Seq<char>>, c: char)
    requires
        ps.len() > 0,
        parts_without(ps, c),
    ensures
        split(join(ps, seq![c]), c) == ps,
    decreases ps.len(),
{
    let sep = seq![c];
    if ps.len() == 1 {
        assert(join(ps, sep) == ps[0]);
        lemma_split_plain(ps[0], c, Seq::empty(), Seq::empty());
        assert(ps[0] + Seq::<char>::empty() =~= ps[0]);
        assert(Seq::<char>::empty() + ps[0] =~= ps[0]);
        assert(split_from(Seq::<char>::empty(), c, ps[0]) == seq![ps[0]]);
        assert(ps =~= seq![ps[0]]);
    } else {
        let rest = ps.drop_first();
        assert(parts_without(rest, c)) by {
            assert forall|i: int| 0 <= i < rest.len() implies no_char(#[trigger] rest[i], c) by {
                assert(rest[i] == ps[i + 1]);
            }
        }
        lemma_join_front(ps, sep);
        let j = join(rest, sep);
        lemma_split_join(rest, c);
        assert(no_char(ps[0], c));
        lemma_split_plain(ps[0], c, sep + j, Seq::empty());
        assert(ps[0] + sep + j =~= ps[0] + (sep + j));
        assert(Seq::<char>::empty() + ps[0] =~= ps[0]);
        let t = sep + j;
        assert(t[0] == c);
        assert(t.drop_first() =~= j);
        assert(split_from(t, c, ps[0]) == seq![ps[0]] + split_from(j, c, Seq::empty()));
        assert(seq![ps[0]] + rest =~= ps);
    }
}

// ----------------------------------------------------------------------
// Executable helpers.

/// The non-empty pieces of `s` between separators `a` and `b`, with the piece
/// collected so far: `s.split([a, b]).filter(|p| !p.is_empty())`.
pub open spec fn pieces_from(s: Seq<char>, a: char, b: char, cur: Seq<char>) -> Seq<Seq<char>>
    decreases s.len(),
{
    if s.len() == 0 {
        if cur.len() == 0 {
            Seq::empty()
        } else {
            seq![cur]
        }
    } else if s[0] == a || s[0] == b {
        (if cur.len() == 0 {
            Seq::empty()
        } else {
            seq![cur]
        }) + pieces_from(s.drop_first(), a, b, Seq::empty())
    } else {
        pieces_from(s.drop_first(), a, b, cur.push(s[0]))
    }
}

/// The non-empty pieces of `s` between separators `a` and `b`.
pub open spec fn pieces(s: Seq<char>, a: char, b: char) -> Seq<Seq<char>> {
    pieces_from(s, a, b, Seq::empty())
}

/// Every piece is non-empty and holds no separator.
pub proof fn lemma_pieces_from_shape(s: Seq<char>, a: char, b: char, cur: Seq<char>)
    requires
        forall|j: int| 0 <= j < cur.len() ==> #[trigger] cur[j] != a && cur[j] != b,
    ensures
        forall|i: int|
            0 <= i < pieces_from(s, a, b, cur).len() ==> (#[trigger] pieces_from(s, a, b, cur)[i]).len() > 0
                && forall|j: int|
                0 <= j < pieces_from(s, a, b, cur)[i].len() ==> #[trigger] pieces_from(s, a, b, cur)[i][j] != a
                    && pieces_from(s, a, b, cur)[i][j] != b,
    decreases s.len(),
{
    if s.len() > 0 {
        if s[0] == a || s[0] == b {
            lemma_pieces_from_shape(s.drop_first(), a, b, Seq::empty());
            let head: Seq<Seq<char>> = if cur.len() == 0 {
                Seq::empty()
            } else {
                seq![cur]
            };
            let rest = pieces_from(s.drop_first(), a, b, Seq::empty());
            assert(pieces_from(s, a, b, cur) == head + rest);
            assert forall|i: int| 0 <= i < (head + rest).len() implies (#[trigger] (head + rest)[i]).len() > 0
                && forall|j: int| 0 <= j < (head + rest)[i].len() ==> #[trigger] (head + rest)[i][j] != a
                    && (head + rest)[i][j] != b by {
                if i >= head.len() {
                    assert((head + rest)[i] == rest[i - head.len()]);
                } else {
                    assert((head + rest)[i] == cur);
                }
            }
        } else {
            let c2 = cur.push(s[0]);
            assert forall|j: int| 0 <= j < c2.len() implies #[trigger] c2[j] != a && c2[j] != b by {
                if j < cur.len() {
                    assert(c2[j] == cur[j]);
                }
            }
            lemma_pieces_from_shape(s.drop_first(), a, b, c2);
            assert(pieces_from(s, a, b, cur) == pieces_from(s.drop_first(), a, b, c2));
        }
    } else if cur.len() > 0 {
        assert(pieces_from(s, a, b, cur) == seq![cur]);
        assert(seq![cur][0] == cur);
    } else {
        assert(pieces_from(s, a, b, cur).len() == 0);
    }
}

// ----------------------------------------------------------------------

/// The characters of the string, in order.
pub fn chars_of(s: &str) -> (out: Vec<char>)
    ensures
        out@ == s@,
{
    let mut out: Vec<char> = Vec::new();
    for c in it: s.chars()
        invariant
            out@ == it.seq().take(it.index() as int),
    {
        out.push(c);
    }
    out
}

/// Appends one character (`String::push`).
#[verifier::external_body]
pub(crate) fn push_char(s: &mut String, c: char)
    ensures
        final(s)@ == old(s)@.push(c),
{
    s.push(c);
}

/// Copies a `&str` into a new `String` (`str::to_string`).
pub fn to_owned_string(s: &str) -> (out: String)
    ensures
        out@ == s@,
{
    s.to_owned()
}

/// Builds a string from characters.
pub fn string_from_chars(v: &[char]) -> (out: String)
    ensures
        out@ == v@,
{
    let mut out = String::new();
    let mut i: usize = 0;
    while i < v.len()
        invariant
            i <= v.len(),
            out@ == v@.subrange(0, i as int),
        decreases v.len() - i,
    {
        push_char(&mut out, v[i]);
        i = i + 1;
        assert(out@ =~= v@.subrange(0, i as int));
    }
    assert(v@.subrange(0, v.len() as int) =~= v@);
    out
}

/// Builds a string from a subrange of characters.
pub fn string_from_range(v: &[char], start: usize, end: usize) -> (out: String)
    requires
        start <= end <= v.len(),
    ensures
        out@ == v@.subrange(start as int, end as int),
{
    let mut out = String::new();
    let mut i: usize = start;
    while i < end
        invariant
            start <= i <= end <= v.len(),
            out@ == v@.subrange(start as int, i as int),
        decreases end - i,
    {
        push_char(&mut out, v[i]);
        i = i + 1;
        assert(out@ =~= v@.subrange(start as int, i as int));
    }
    out
}

/// Appends a string slice.
pub fn push_str(s: &mut String, t: &str)
    ensures
        final(s)@ == old(s)@ + t@,
{
    s.append(t);
}

/// Appends the characters of a subrange.
pub fn push_range(s: &mut String, v: &[char], start: usize, end: usize)
    requires
        start <= end <= v.len(),
    ensures
        final(s)@ == old(s)@ + v@.subrange(start as int, end as int),
{
    let ghost s0 = s@;
    let mut i: usize = start;
    while i < end
        invariant
            start <= i <= end <= v.len(),
            s@ == s0 + v@.subrange(start as int, i as int),
        decreases end - i,
    {
        push_char(s, v[i]);
        i = i + 1;
        assert(s@ =~= s0 + v@.subrange(start as int, i as int));
    }
}

pub fn char_is_ws(c: char) -> (r: bool)
    ensures
        r == is_ws(c),
{
    ('\t' <= c && c <= '\r') || c == ' ' || c == '\u{85}' || c == '\u{a0}' || c == '\u{1680}' || (
    '\u{2000}' <= c && c <= '\u{200a}') || c == '\u{2028}' || c == '\u{2029}' || c == '\u{202f}'
        || c == '\u{205f}' || c == '\u{3000}'
}

pub fn char_is_ctrl(c: char) -> (r: bool)
    ensures
        r == is_ctrl(c),
{
    c <= '\u{1f}' || ('\u{7f}' <= c && c <= '\u{9f}')
}

pub fn char_is_invalid_text(c: char) -> (r: bool)
    ensures
        r == is_invalid_text_char(c),
{
    char_is_ctrl(c) && c != '\n' && c != '\r' && c != '\t'
}

pub fn char_is_ascii_alnum(c: char) -> (r: bool)
    ensures
        r == is_ascii_alnum(c),
{
    ('0' <= c && c <= '9') || ('a' <= c && c <= 'z') || ('A' <= c && c <= 'Z')
}

pub fn char_to_lower(c: char) -> (r: char)
    ensures
        r == lower_char(c),
{
    if 'A' <= c && c <= 'Z' {
        let code: u32 = c as u32;
        assert(0x61 <= code + 32 <= 0x7a);
        char_from_ascii(code + 32)
    } else {
        c
    }
}

pub fn char_to_upper(c: char) -> (r: char)
    ensures
        r == upper_char(c),
{
    if 'a' <= c && c <= 'z' {
        let code: u32 = c as u32;
        char_from_ascii(code - 32)
    } else {
        c
    }
}

/// An ASCII code point as a `char` (`char::from_u32`, which succeeds below 0x80).
fn char_from_ascii(code: u32) -> (c: char)
    requires
        code < 0x80,
    ensures
        c == code as char,
{
    let b: u8 = code as u8;
    b as char
}

/// Index range of the trimmed text.
pub fn trim_bounds(v: &[char]) -> (r: (usize, usize))
    ensures
        r.0 <= r.1 <= v.len(),
        trim(v@) == v@.subrange(r.0 as int, r.1 as int),
{
    let n = v.len();
    let mut a: usize = 0;
    while a < n && char_is_ws(v[a])
        invariant
            a <= n == v.len(),
            forall|j: int| 0 <= j < a ==> is_ws(#[trigger] v@[j]),
        decreases n - a,
    {
        a = a + 1;
    }
    proof {
        lemma_trim_start_skip(v@, a as int);
    }
    let ghost t = v@.subrange(a as int, n as int);
    assert(trim_start(t) == t);
    let mut b: usize = n;
    while b > a && char_is_ws(v[b - 1])
        invariant
            a <= b <= n == v.len(),
            t == v@.subrange(a as int, n as int),
            forall|j: int| b <= j < n ==> is_ws(#[trigger] v@[j]),
        decreases b,
    {
        b = b - 1;
    }
    proof {
        assert forall|j: int| (b - a) <= j < t.len() implies is_ws(#[trigger] t[j]) by {
            assert(t[j] == v@[j + a]);
        }
        lemma_trim_end_skip(t, b - a);
        assert(t.subrange(0, b - a) =~= v@.subrange(a as int, b as int));
    }
    (a, b)
}

/// `str::trim_end` into a new string.
pub fn trim_end_string(s: &str) -> (out: String)
    ensures
        out@ == trim_end(s@),
{
    let v = chars_of(s);
    let n = v.len();
    let mut b: usize = n;
    while b > 0 && char_is_ws(v[b - 1])
        invariant
            b <= n == v.len(),
            forall|j: int| b <= j < n ==> is_ws(#[trigger] v@[j]),
        decreases b,
    {
        b = b - 1;
    }
    proof {
        lemma_trim_end_skip(v@, b as int);
        let t = v@.subrange(0, b as int);
        if t.len() > 0 {
            assert(t.last() == v@[b - 1]);
        }
        assert(trim_end(t) == t);
    }
    string_from_range(v.as_slice(), 0, b)
}

/// `str::trim` into a new string.
pub fn trim_string(s: &str) -> (out: String)
    ensures
        out@ == trim(s@),
{
    let v = chars_of(s);
    let (a, b) = trim_bounds(v.as_slice());
    string_from_range(v.as_slice(), a, b)
}

/// Whether any character is a control character.
pub fn any_ctrl(v: &[char]) -> (r: bool)
    ensures
        r == has_ctrl(v@),
{
    let mut i: usize = 0;
    while i < v.len()
        invariant
            i <= v.len(),
            forall|j: int| 0 <= j < i ==> !is_ctrl(#[trigger] v@[j]),
        decreases v.len() - i,
    {
        if char_is_ctrl(v[i]) {
            return true;
        }
        i = i + 1;
    }
    false
}

/// Whether any character is a control character other than `\n`, `\r`, `\t`.
pub fn any_invalid_text_char(v: &[char]) -> (r: bool)
    ensures
        r == has_invalid_text_char(v@),
{
    let mut i: usize = 0;
    while i < v.len()
        invariant
            i <= v.len(),
            forall|j: int| 0 <= j < i ==> !is_invalid_text_char(#[trigger] v@[j]),
        decreases v.len() - i,
    {
        if char_is_invalid_text(v[i]) {
            return true;
        }
        i = i + 1;
    }
    false
}

/// Whether all characters are whitespace.
pub fn all_ws(v: &[char]) -> (r: bool)
    ensures
        r == (forall|j: int| 0 <= j < v@.len() ==> is_ws(#[trigger] v@[j])),
{
    let mut i: usize = 0;
    while i < v.len()
        invariant
            i <= v.len(),
            forall|j: int| 0 <= j < i ==> is_ws(#[trigger] v@[j]),
        decreases v.len() - i,
    {
        if !char_is_ws(v[i]) {
            return false;
        }
        i = i + 1;
    }
    true
}

/// Whether the text is blank (`s.trim().is_empty()`).
pub fn is_blank(s: &str) -> (r: bool)
    ensures
        r == (trim(s@).len() == 0),
{
    let v = chars_of(s);
    proof {
        lemma_trim_empty(s@);
    }
    all_ws(v.as_slice())
}

/// Character sequences are equal.
pub fn chars_eq(a: &[char], b: &[char]) -> (r: bool)
    ensures
        r == (a@ == b@),
{
    if a.len() != b.len() {
        return false;
    }
    let mut i: usize = 0;
    while i < a.len()
        invariant
            i <= a.len() == b.len(),
            forall|j: int| 0 <= j < i ==> a@[j] == b@[j],
        decreases a.len() - i,
    {
        if a[i] != b[i] {
            return false;
        }
        i = i + 1;
    }
    assert(a@ =~= b@);
    true
}

/// String slices are equal.
pub fn str_eq(a: &str, b: &str) -> (r: bool)
    ensures
        r == (a@ == b@),
{
    let va = chars_of(a);
    let vb = chars_of(b);
    chars_eq(va.as_slice(), vb.as_slice())
}

/// `str::to_ascii_lowercase` on characters.
pub fn lower_chars(v: &[char]) -> (out: Vec<char>)
    ensures
        out@ == lower(v@),
{
    let mut out: Vec<char> = Vec::new();
    let mut i: usize = 0;
    while i < v.len()
        invariant
            i <= v.len(),
            out@ == lower(v@.subrange(0, i as int)),
        decreases v.len() - i,
    {
        out.push(char_to_lower(v[i]));
        i = i + 1;
        assert(out@ =~= lower(v@.subrange(0, i as int)));
    }
    assert(v@.subrange(0, v.len() as int) =~= v@);
    out
}

/// Whether `p` is a prefix of `v` at offset `at`.
pub fn matches_at(v: &[char], at: usize, p: &[char]) -> (r: bool)
    requires
        at <= v.len(),
    ensures
        r == (at + p.len() <= v.len() && v@.subrange(at as int, at + p.len()) == p@),
{
    if p.len() > v.len() - at {
        return false;
    }
    let mut i: usize = 0;
    while i < p.len()
        invariant
            i <= p.len(),
            at + p.len() <= v.len(),
            forall|j: int| 0 <= j < i ==> v@[at + j] == p@[j],
        decreases p.len() - i,
    {
        if v[at + i] != p[i] {
            assert(v@.subrange(at as int, at + p.len())[i as int] != p@[i as int]);
            return false;
        }
        i = i + 1;
    }
    assert(v@.subrange(at as int, at + p.len()) =~= p@);
    true
}

/// `str::starts_with` for characters.
pub fn starts_with(v: &[char], p: &[char]) -> (r: bool)
    ensures
        r == is_prefix(p@, v@),
{
    matches_at(v, 0, p)
}

/// `str::ends_with` for characters.
pub fn ends_with(v: &[char], p: &[char]) -> (r: bool)
    ensures
        r == is_suffix(p@, v@),
{
    if p.len() > v.len() {
        return false;
    }
    matches_at(v, v.len() - p.len(), p)
}

/// `str::contains` for characters.
pub fn contains(v: &[char], p: &[char]) -> (r: bool)
    ensures
        r == contains_seq(v@, p@),
{
    if p.len() > v.len() {
        proof {
            assert forall|i: int| 0 <= i && i + p@.len() <= v@.len() implies #[trigger] v@.subrange(
                i,
                i + p@.len(),
            ) != p@ by {}
        }
        return false;
    }
    let limit = v.len() - p.len();
    let mut i: usize = 0;
    loop
        invariant
            limit == v.len() - p.len(),
            i <= limit,
            forall|k: int| 0 <= k < i ==> #[trigger] v@.subrange(k, k + p@.len()) != p@,
        decreases limit - i,
    {
        if matches_at(v, i, p) {
            return true;
        }
        if i == limit {
            return false;
        }
        i = i + 1;
    }
}

fn char_len_utf8(c: char) -> (n: u64)
    ensures
        n == char_utf8_len(c),
{
    let code: u32 = c as u32;
    if code < 0x80 {
        1
    } else if code < 0x800 {
        2
    } else if code < 0x10000 {
        3
    } else {
        4
    }
}

/// Whether the UTF-8 encoding of the text has at most `max` bytes.
pub fn utf8_len_at_most(v: &[char], max: usize) -> (r: bool)
    ensures
        r == (utf8_len(v@) <= max),
{
    let mut total: u64 = 0;
    let mut i: usize = 0;
    while i < v.len()
        invariant
            i <= v.len(),
            total == utf8_len(v@.subrange(0, i as int)),
            total <= max,
        decreases v.len() - i,
    {
        let ghost before = v@.subrange(0, i as int);
        let n = char_len_utf8(v[i]);
        assert(v@.subrange(0, i + 1).drop_last() =~= before);
        if n > max as u64 - total {
            proof {
                lemma_utf8_len_prefix(v@, i + 1);
            }
            return false;
        }
        total = total + n;
        i = i + 1;
    }
    assert(v@.subrange(0, v.len() as int) =~= v@);
    true
}

pub open spec fn string_views(v: Seq<String>) -> Seq<Seq<char>> {
    v.map_values(|x: String| x@)
}

/// `str::split(sep)` into owned pieces.
pub fn split_chars(v: &[char], sep: char) -> (out: Vec<String>)
    ensures
        string_views(out@) == split(v@, sep),
{
    let mut out: Vec<String> = Vec::new();
    let mut cur = String::new();
    let mut i: usize = 0;
    assert(v@.subrange(0, v.len() as int) =~= v@);
    while i < v.len()
        invariant
            i <= v.len(),
            string_views(out@) + split_from(v@.subrange(i as int, v.len() as int), sep, cur@)
                == split(v@, sep),
        decreases v.len() - i,
    {
        let ghost rest = v@.subrange(i as int, v.len() as int);
        assert(rest.drop_first() =~= v@.subrange(i + 1, v.len() as int));
        assert(rest[0] == v@[i as int]);
        if v[i] == sep {
            let ghost before = out@;
            let piece = cur;
            cur = String::new();
            out.push(piece);
            assert(string_views(out@) =~= string_views(before) + seq![piece@]);
            assert(string_views(out@) + split_from(v@.subrange(i + 1, v.len() as int), sep, cur@)
                =~= string_views(before) + (seq![piece@] + split_from(
                v@.subrange(i + 1, v.len() as int),
                sep,
                Seq::empty(),
            )));
        } else {
            push_char(&mut cur, v[i]);
        }
        i = i + 1;
    }
    let ghost before = out@;
    out.push(cur);
    assert(string_views(out@) =~= string_views(before) + seq![cur@]);
    assert(v@.subrange(v.len() as int, v.len() as int) =~= Seq::<char>::empty());
    out
}

/// The non-empty pieces between separators `a` and `b`, as owned strings.
pub fn split_pieces(v: &[char], a: char, b: char) -> (out: Vec<String>)
    ensures
        string_views(out@) == pieces(v@, a, b),
{
    let mut out: Vec<String> = Vec::new();
    let mut cur = String::new();
    let mut cur_len: usize = 0;
    let mut i: usize = 0;
    assert(v@.subrange(0, v.len() as int) =~= v@);
    while i < v.len()
        invariant
            i <= v.len(),
            cur_len == cur@.len(),
            cur_len <= i,
            string_views(out@) + pieces_from(v@.subrange(i as int, v.len() as int), a, b, cur@)
                == pieces(v@, a, b),
        decreases v.len() - i,
    {
        let ghost rest = v@.subrange(i as int, v.len() as int);
        assert(rest.drop_first() =~= v@.subrange(i + 1, v.len() as int));
        assert(rest[0] == v@[i as int]);
        if v[i] == a || v[i] == b {
            if cur_len > 0 {
                let ghost before = out@;
                let piece = cur;
                cur = String::new();
                cur_len = 0;
                out.push(piece);
                assert(string_views(out@) =~= string_views(before) + seq![piece@]);
                assert(string_views(out@) + pieces_from(v@.subrange(i + 1, v.len() as int), a, b, cur@)
                    =~= string_views(before) + (seq![piece@] + pieces_from(
                    v@.subrange(i + 1, v.len() as int),
                    a,
                    b,
                    Seq::empty(),
                )));
            } else {
                assert(cur@ =~= Seq::<char>::empty());
                assert(Seq::<Seq<char>>::empty() + pieces_from(
                    v@.subrange(i + 1, v.len() as int),
                    a,
                    b,
                    Seq::empty(),
                ) =~= pieces_from(v@.subrange(i + 1, v.len() as int), a, b, Seq::empty()));
            }
        } else {
            push_char(&mut cur, v[i]);
            cur_len = cur_len + 1;
        }
        i = i + 1;
    }
    if cur_len > 0 {
        let ghost before = out@;
        out.push(cur);
        assert(string_views(out@) =~= string_views(before) + seq![cur@]);
    } else {
        assert(string_views(out@) =~= string_views(out@) + Seq::<Seq<char>>::empty());
    }
    out
}

/// A copy of the characters in `start..end`.
pub fn chars_range(v: &[char], start: usize, end: usize) -> (out: Vec<char>)
    requires
        start <= end <= v.len(),
    ensures
        out@ == v@.subrange(start as int, end as int),
{
    let mut out: Vec<char> = Vec::new();
    let mut i: usize = start;
    while i < end
        invariant
            start <= i <= end <= v.len(),
            out@ == v@.subrange(start as int, i as int),
        decreases end - i,
    {
        out.push(v[i]);
        i = i + 1;
        assert(out@ =~= v@.subrange(start as int, i as int));
    }
    out
}

/// `join(sep)` of owned pieces.
pub fn join_strings(parts: &[String], sep: &str) -> (out: String)
    ensures
        out@ == join(string_views(parts@), sep@),
{
    let mut out = String::new();
    let mut i: usize = 0;
    while i < parts.len()
        invariant
            i <= parts.len(),
            out@ == join(string_views(parts@.subrange(0, i as int)), sep@),
        decreases parts.len() - i,
    {
        let ghost prev = string_views(parts@.subrange(0, i as int));
        if i > 0 {
            push_str(&mut out, sep);
        }
        push_str(&mut out, parts[i].as_str());
        i = i + 1;
        let ghost now = string_views(parts@.subrange(0, i as int));
        assert(now.drop_last() =~= prev);
        assert(now.last() == parts@[i - 1]@);
        if i == 1 {
            assert(now.len() == 1);
            assert(out@ =~= now[0]);
        }
    }
    assert(parts@.subrange(0, parts.len() as int) =~= parts@);
    out
}

/// Decimal representation of a number (`u64::to_string`).
pub fn decimal_string(n: u64) -> (out: String)
    ensures
        out@ == decimal(n as nat),
    decreases n,
{
    if n < 10 {
        let mut out = String::new();
        push_char(&mut out, digit(n));
        assert(out@ =~= decimal(n as nat));
        out
    } else {
        let mut out = decimal_string(n / 10);
        push_char(&mut out, digit(n % 10));
        out
    }
}

fn digit(d: u64) -> (c: char)
    requires
        d < 10,
    ensures
        c == digit_char(d as nat),
{
    let code: u32 = (d as u32) + 48;
    char_from_ascii(code)
}

} // verus!
