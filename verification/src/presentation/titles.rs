//! Conversation titles that do not repeat: a title already in use gets a number.
use vstd::prelude::*;

use crate::conversations::Conversation;
use crate::text::{
    chars_of, decimal, decimal_string, digit_char, push_str, str_eq, string_from_range,
    string_views, to_owned_string,
};
use crate::presentation::chat_text::TITLE_MAX_CHARS;

verus! {

/// The title tried with number `n`: as much of the title as fits in 30
/// characters together with ` n`, then ` n`.
pub open spec fn numbered_candidate(title: Seq<char>, n: nat) -> Seq<char> {
    let suffix = " "@ + decimal(n);
    let limit: int = if suffix.len() < 30 {
        30 - suffix.len()
    } else {
        0
    };
    let keep: int = if title.len() < limit {
        title.len() as int
    } else {
        limit
    };
    title.subrange(0, keep) + suffix
}

/// The title a conversation gets when `existing` holds the other titles: the
/// title itself when it is free, else the candidate with the smallest number
/// from 2 on that is free.
pub open spec fn is_numbered_title(existing: Seq<Seq<char>>, title: Seq<char>, r: Seq<char>) -> bool {
    if !existing.contains(title) {
        r == title
    } else {
        exists|n: nat|
            n >= 2 && r == numbered_candidate(title, n) && !existing.contains(r) && forall|m: nat|
                2 <= m < n ==> existing.contains(#[trigger] numbered_candidate(title, m))
    }
}

pub proof fn lemma_decimal_shape(n: nat)
    ensures
        decimal(n).len() >= 1,
        n >= 10 ==> decimal(n).len() >= 2,
        forall|i: int| 0 <= i < decimal(n).len() ==> #[trigger] decimal(n)[i] != ' ',
    decreases n,
{
    if n >= 10 {
        lemma_decimal_shape(n / 10);
        let d = decimal(n / 10);
        assert(decimal(n) == d.push(digit_char(n % 10)));
        assert(digit_char(n % 10) != ' ') by {
            assert((n % 10) + 48 >= 48);
        }
        assert forall|i: int| 0 <= i < decimal(n).len() implies #[trigger] decimal(n)[i] != ' ' by {
            if i < d.len() {
                assert(decimal(n)[i] == d[i]);
            }
        }
    } else {
        assert(decimal(n) == seq![digit_char(n)]);
        assert(digit_char(n) != ' ') by {
            assert(n + 48 >= 48);
        }
    }
}

pub proof fn lemma_digit_char_injective(a: nat, b: nat)
    requires
        a < 10,
        b < 10,
        digit_char(a) == digit_char(b),
    ensures
        a == b,
{
    assert(((a + 48) as u32) as char == ((b + 48) as u32) as char);
    assert((((a + 48) as u32) as char) as u32 == (a + 48) as u32);
    assert((((b + 48) as u32) as char) as u32 == (b + 48) as u32);
}

/// Different numbers are written differently.
pub proof fn lemma_decimal_injective(a: nat, b: nat)
    requires
        decimal(a) == decimal(b),
    ensures
        a == b,
    decreases a,
{
    lemma_decimal_shape(a);
    lemma_decimal_shape(b);
    if a < 10 {
        if b >= 10 {
            assert(decimal(a).len() == 1);
        } else {
            assert(decimal(a)[0] == digit_char(a));
            assert(decimal(b)[0] == digit_char(b));
            lemma_digit_char_injective(a, b);
        }
    } else {
        if b < 10 {
            assert(decimal(b).len() == 1);
        } else {
            let da = decimal(a);
            let db = decimal(b);
            assert(da.last() == digit_char(a % 10));
            assert(db.last() == digit_char(b % 10));
            lemma_digit_char_injective(a % 10, b % 10);
            assert(da.drop_last() == decimal(a / 10));
            assert(db.drop_last() == decimal(b / 10));
            lemma_decimal_injective(a / 10, b / 10);
        }
    }
}

/// Different numbers give different candidates: the text after the last space is the number.
pub proof fn lemma_candidate_injective(title: Seq<char>, a: nat, b: nat)
    requires
        numbered_candidate(title, a) == numbered_candidate(title, b),
    ensures
        a == b,
{
    let da = decimal(a);
    let db = decimal(b);
    let c = numbered_candidate(title, a);
    lemma_decimal_shape(a);
    lemma_decimal_shape(b);
    reveal_strlit(" ");
    let sa = " "@ + da;
    let sb = " "@ + db;
    assert(sa.len() == da.len() + 1 && sa[0] == ' ');
    assert(sb.len() == db.len() + 1 && sb[0] == ' ');
    let len = c.len() as int;
    let pa = c.len() - da.len();
    let pb = c.len() - db.len();
    let ka = c.len() - sa.len();
    let kb = c.len() - sb.len();
    assert(c == c.subrange(0, ka) + sa);
    assert(c == numbered_candidate(title, b));
    assert(c == c.subrange(0, kb) + sb);
    assert(c[ka] == sa[0]);
    assert(c[kb] == sb[0]);
    assert(c[pa - 1] == ' ');
    assert(c[pb - 1] == ' ');
    assert(c.subrange(pa as int, len) =~= da);
    assert(c.subrange(pb as int, len) =~= db);
    if da.len() < db.len() {
        assert(c[pa - 1] == db[pa - 1 - pb]);
    } else if db.len() < da.len() {
        assert(c[pb - 1] == da[pb - 1 - pa]);
    }
    assert(da =~= db);
    lemma_decimal_injective(a, b);
}

/// Among numbers `2..n` whose candidates are all taken there can be no more
/// than there are existing titles.
pub proof fn lemma_taken_candidates_bound(existing: Seq<Seq<char>>, title: Seq<char>, n: nat)
    requires
        n >= 2,
        forall|m: nat| 2 <= m < n ==> existing.contains(#[trigger] numbered_candidate(title, m)),
    ensures
        n - 2 <= existing.len(),
{
    let x = vstd::set_lib::set_int_range(2, n as int);
    vstd::set_lib::lemma_int_range(2, n as int);
    let f = |m: int| numbered_candidate(title, m as nat);
    let y = x.map(f);
    assert(vstd::relations::injective_on(f, x)) by {
        assert forall|x1: int, x2: int| x.contains(x1) && x.contains(x2) && #[trigger] f(x1) == #[trigger] f(
            x2,
        ) implies x1 == x2 by {
            lemma_candidate_injective(title, x1 as nat, x2 as nat);
        }
    }
    vstd::set_lib::lemma_map_size(x, y, f);
    let e = existing.to_set();
    assert(y.subset_of(e)) by {
        assert forall|c: Seq<char>| y.contains(c) implies e.contains(c) by {
            let m = choose|m: int| x.contains(m) && f(m) == c;
            assert(existing.contains(numbered_candidate(title, m as nat)));
        }
    }
    existing.lemma_cardinality_of_set();
    vstd::set_lib::lemma_len_subset(y, e);
}

fn contains_title(existing: &[String], title: &str) -> (r: bool)
    ensures
        r == string_views(existing@).contains(title@),
{
    let mut i: usize = 0;
    while i < existing.len()
        invariant
            i <= existing.len(),
            forall|j: int| 0 <= j < i ==> existing@[j]@ != title@,
        decreases existing.len() - i,
    {
        if str_eq(existing[i].as_str(), title) {
            assert(string_views(existing@)[i as int] == title@);
            return true;
        }
        i = i + 1;
    }
    proof {
        if string_views(existing@).contains(title@) {
            let j = choose|j: int|
                0 <= j < string_views(existing@).len() && string_views(existing@)[j] == title@;
            assert(existing@[j]@ == title@);
        }
    }
    false
}

fn candidate(title: &[char], n: u64) -> (r: String)
    ensures
        r@ == numbered_candidate(title@, n as nat),
{
    let mut suffix = to_owned_string(" ");
    let digits = decimal_string(n);
    push_str(&mut suffix, digits.as_str());
    let suffix_len = chars_of(suffix.as_str()).len();
    let limit: usize = if suffix_len < TITLE_MAX_CHARS {
        TITLE_MAX_CHARS - suffix_len
    } else {
        0
    };
    let keep: usize = if title.len() < limit {
        title.len()
    } else {
        limit
    };
    let mut r = string_from_range(title, 0, keep);
    push_str(&mut r, suffix.as_str());
    r
}

/// A title that no other conversation has.
pub fn numbered_conversation_title(existing_titles: &[String], title: &str) -> (r: String)
    requires
        existing_titles@.len() < i32::MAX - 1,
    ensures
        is_numbered_title(string_views(existing_titles@), title@, r@),
{
    let ghost existing = string_views(existing_titles@);
    if !contains_title(existing_titles, title) {
        return to_owned_string(title);
    }
    let t = chars_of(title);
    let mut n: u64 = 2;
    loop
        invariant
            2 <= n <= existing_titles@.len() + 2,
            existing == string_views(existing_titles@),
            existing_titles@.len() < i32::MAX - 1,
            existing.contains(title@),
            t@ == title@,
            forall|m: nat| 2 <= m < n ==> existing.contains(#[trigger] numbered_candidate(title@, m)),
        decreases existing_titles@.len() + 2 - n,
    {
        let c = candidate(t.as_slice(), n);
        if !contains_title(existing_titles, c.as_str()) {
            assert(is_numbered_title(existing, title@, c@)) by {
                assert(n >= 2 && c@ == numbered_candidate(title@, n as nat));
            }
            return c;
        }
        proof {
            assert forall|m: nat| 2 <= m < n + 1 implies existing.contains(
                #[trigger] numbered_candidate(title@, m),
            ) by {
                if m == n {
                    assert(numbered_candidate(title@, m) == c@);
                }
            }
            lemma_taken_candidates_bound(existing, title@, (n + 1) as nat);
        }
        n = n + 1;
    }
}

/// The titles, in order, of the conversations whose id is not `id`.
pub open spec fn other_titles(cs: Seq<Conversation>, id: Seq<char>) -> Seq<Seq<char>>
    decreases cs.len(),
{
    if cs.len() == 0 {
        Seq::empty()
    } else if cs.last().id@ != id {
        other_titles(cs.drop_last(), id).push(cs.last().title@)
    } else {
        other_titles(cs.drop_last(), id)
    }
}

/// The titles of the conversations other than the one with the given id.
pub fn titles_except(conversations: &[Conversation], conversation_id: &str) -> (r: Vec<String>)
    ensures
        string_views(r@) == other_titles(conversations@, conversation_id@),
{
    let mut r: Vec<String> = Vec::new();
    let mut i: usize = 0;
    while i < conversations.len()
        invariant
            i <= conversations.len(),
            string_views(r@) == other_titles(conversations@.subrange(0, i as int), conversation_id@),
        decreases conversations.len() - i,
    {
        let ghost before = r@;
        let ghost prefix = conversations@.subrange(0, i as int);
        let ghost next = conversations@.subrange(0, i + 1);
        assert(next.drop_last() =~= prefix);
        assert(next.last() == conversations@[i as int]);
        if !str_eq(conversations[i].id.as_str(), conversation_id) {
            r.push(conversations[i].title.clone());
            assert(string_views(r@) =~= string_views(before).push(conversations@[i as int].title@));
        }
        i = i + 1;
    }
    assert(conversations@.subrange(0, conversations.len() as int) =~= conversations@);
    r
}

/// The numbered title is never one that another conversation already has,
/// and a free title is kept as it is.
pub proof fn lemma_numbered_title_is_free(existing: Seq<Seq<char>>, title: Seq<char>, r: Seq<char>)
    requires
        is_numbered_title(existing, title, r),
    ensures
        !existing.contains(r),
        !existing.contains(title) ==> r == title,
{
}

} // verus!
