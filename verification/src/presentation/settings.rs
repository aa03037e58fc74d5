//! The settings dialogs: whole numbers typed into optional fields, the model
//! chooser, and how a shortcut is shown on its button.
use vstd::prelude::*;

use crate::text::{
    chars_of, decimal, digit_char, is_ascii_digit, push_str, str_eq, string_views, to_owned_string, trim, trim_bounds,
    is_blank,
};

verus! {

/// What a shortcut's button says: the shortcut, or `Disabled` when there is none.
pub open spec fn shortcut_label(value: Seq<char>) -> Seq<char> {
    if trim(value).len() == 0 {
        "Disabled"@
    } else {
        value
    }
}

pub fn shortcut_button_label(value: &str) -> (r: String)
    ensures
        r@ == shortcut_label(value@),
{
    if is_blank(value) {
        to_owned_string("Disabled")
    } else {
        to_owned_string(value)
    }
}

// ----------------------------------------------------------------------
// Whole numbers.
// ----------------------------------------------------------------------

/// The number written by a run of decimal digits.
pub open spec fn digits_value(s: Seq<char>) -> int
    decreases s.len(),
{
    if s.len() == 0 {
        0
    } else {
        digits_value(s.drop_last()) * 10 + (s.last() as int - 48)
    }
}

pub open spec fn all_digits(s: Seq<char>) -> bool {
    forall|i: int| 0 <= i < s.len() ==> is_ascii_digit(#[trigger] s[i])
}

/// `str::parse::<i64>`: an optional `+` or `-`, then one or more ASCII digits,
/// whose value fits in an `i64`.
pub open spec fn i64_value(s: Seq<char>) -> Option<i64> {
    let signed = s.len() > 0 && (s[0] == '-' || s[0] == '+');
    let d = if signed {
        s.drop_first()
    } else {
        s
    };
    let v = if s.len() > 0 && s[0] == '-' {
        -digits_value(d)
    } else {
        digits_value(d)
    };
    if d.len() == 0 || !all_digits(d) || v < i64::MIN || v > i64::MAX {
        None
    } else {
        Some(v as i64)
    }
}

proof fn lemma_digits_value_grows(s: Seq<char>, i: int)
    requires
        0 <= i <= s.len(),
        all_digits(s),
    ensures
        digits_value(s.subrange(0, i)) <= digits_value(s),
        0 <= digits_value(s.subrange(0, i)),
    decreases s.len() - i,
{
    if i == s.len() {
        assert(s.subrange(0, i) =~= s);
        lemma_digits_value_nonneg(s);
    } else {
        lemma_digits_value_grows(s, i + 1);
        let p = s.subrange(0, i + 1);
        assert(p.drop_last() =~= s.subrange(0, i));
        assert(is_ascii_digit(s[i]));
        lemma_digits_value_nonneg(s.subrange(0, i));
    }
}

proof fn lemma_digits_value_nonneg(s: Seq<char>)
    requires
        all_digits(s),
    ensures
        0 <= digits_value(s),
    decreases s.len(),
{
    if s.len() > 0 {
        assert(is_ascii_digit(s[s.len() - 1]));
        lemma_digits_value_nonneg(s.drop_last());
    }
}

/// A whole number in the text, as `str::parse::<i64>` reads it.
pub fn parse_i64(text: &str) -> (r: Option<i64>)
    ensures
        r == i64_value(text@),
{
    let v = chars_of(text);
    let n = v.len();
    let signed = n > 0 && (v[0] == '-' || v[0] == '+');
    let negative = n > 0 && v[0] == '-';
    let start: usize = if signed {
        1
    } else {
        0
    };
    let ghost d = if signed {
        v@.drop_first()
    } else {
        v@
    };
    assert(d =~= v@.subrange(start as int, n as int));
    if start == n {
        return None;
    }
    let mut acc: u64 = 0;
    let mut i: usize = start;
    while i < n
        invariant
            start <= i <= n == v.len(),
            v@ == text@,
            start == (if signed {
                1usize
            } else {
                0usize
            }),
            signed == (n > 0 && (v@[0] == '-' || v@[0] == '+')),
            d == (if signed {
                v@.drop_first()
            } else {
                v@
            }),
            d == v@.subrange(start as int, n as int),
            acc == digits_value(d.subrange(0, i - start)),
            all_digits(d.subrange(0, i - start)),
            acc <= 0x8000_0000_0000_0000,
        decreases n - i,
    {
        let c = v[i];
        let ghost p = d.subrange(0, i + 1 - start);
        assert(p.drop_last() =~= d.subrange(0, i - start));
        assert(p.last() == c);
        if !('0' <= c && c <= '9') {
            assert(!is_ascii_digit(d[i - start]));
            assert(!all_digits(d));
            return None;
        }
        let digit: u64 = (c as u32 - 48) as u64;
        if acc > (0x8000_0000_0000_0000 - digit) / 10 {
            proof {
                assert(acc * 10 + digit > 0x8000_0000_0000_0000) by (nonlinear_arith)
                    requires
                        acc > (0x8000_0000_0000_0000 - digit) / 10,
                        digit <= 9,
                ;
                assert(digits_value(p) == acc * 10 + digit);
                assert forall|j: int| 0 <= j < i + 1 - start implies is_ascii_digit(#[trigger] p[j]) by {
                    if j < i - start {
                        assert(p[j] == d.subrange(0, i - start)[j]);
                    }
                }
                if all_digits(d) {
                    lemma_digits_value_grows(d, i + 1 - start);
                    assert(digits_value(d) > 0x8000_0000_0000_0000);
                }
            }
            return None;
        }
        proof {
            assert(acc * 10 + digit <= 0x8000_0000_0000_0000) by (nonlinear_arith)
                requires
                    acc <= (0x8000_0000_0000_0000 - digit) / 10,
                    digit <= 9,
            ;
            assert forall|j: int| 0 <= j < i + 1 - start implies is_ascii_digit(#[trigger] p[j]) by {
                if j < i - start {
                    assert(p[j] == d.subrange(0, i - start)[j]);
                }
            }
        }
        acc = acc * 10 + digit;
        i = i + 1;
    }
    assert(d.subrange(0, n - start) =~= d);
    if negative {
        if acc == 0x8000_0000_0000_0000 {
            Some(i64::MIN)
        } else {
            let m: i64 = acc as i64;
            Some(-m)
        }
    } else if acc > 0x7fff_ffff_ffff_ffff {
        None
    } else {
        Some(acc as i64)
    }
}

/// An optional whole-number field: empty (after trimming) is no value, and
/// anything that is not a whole number is refused with the field's name.
pub open spec fn optional_i64_field(text: Seq<char>, field: Seq<char>) -> Result<Option<i64>, Seq<char>> {
    let t = trim(text);
    if t.len() == 0 {
        Ok(None)
    } else {
        match i64_value(t) {
            Some(v) => Ok(Some(v)),
            None => Err(field + " must be a whole number"@),
        }
    }
}

pub open spec fn result_view(r: Result<Option<i64>, String>) -> Result<Option<i64>, Seq<char>> {
    match r {
        Ok(v) => Ok(v),
        Err(e) => Err(e@),
    }
}

pub fn parse_optional_i64(text: &str, field: &str) -> (r: Result<Option<i64>, String>)
    ensures
        result_view(r) == optional_i64_field(text@, field@),
{
    let v = chars_of(text);
    let (a, b) = trim_bounds(v.as_slice());
    if a == b {
        return Ok(None);
    }
    let t = crate::text::string_from_range(v.as_slice(), a, b);
    match parse_i64(t.as_str()) {
        Some(value) => Ok(Some(value)),
        None => {
            let mut message = to_owned_string(field);
            push_str(&mut message, " must be a whole number");
            Err(message)
        },
    }
}

/// An optional whole-number field that must not be negative.
pub open spec fn optional_non_negative_field(text: Seq<char>, field: Seq<char>) -> Result<
    Option<i64>,
    Seq<char>,
> {
    match optional_i64_field(text, field) {
        Ok(Some(v)) => if v >= 0 {
            Ok(Some(v))
        } else {
            Err(field + " must be 0 or greater"@)
        },
        other => other,
    }
}

pub fn parse_optional_non_negative_i64(text: &str, field: &str) -> (r: Result<Option<i64>, String>)
    ensures
        result_view(r) == optional_non_negative_field(text@, field@),
{
    match parse_optional_i64(text, field) {
        Ok(Some(value)) => {
            if value >= 0 {
                Ok(Some(value))
            } else {
                let mut message = to_owned_string(field);
                push_str(&mut message, " must be 0 or greater");
                Err(message)
            }
        },
        Ok(None) => Ok(None),
        Err(e) => Err(e),
    }
}

// ----------------------------------------------------------------------
// The model chooser.
// ----------------------------------------------------------------------

pub open spec fn opt_views(v: Seq<Option<String>>) -> Seq<Option<Seq<char>>> {
    v.map_values(|o: Option<String>| crate::urls::opt_view(o))
}

/// Whether the preferred model is missing from the installed ones.
pub open spec fn preferred_missing(names: Seq<Seq<char>>, preferred: Option<Seq<char>>) -> bool {
    preferred is Some && !names.contains(preferred.unwrap())
}

/// The choices: "Use Selected Model", then each model, then the preferred
/// model marked unavailable when it is not installed.
pub open spec fn choice_labels(names: Seq<Seq<char>>, preferred: Option<Seq<char>>) -> Seq<Seq<char>> {
    seq!["Use Selected Model"@] + names + if preferred_missing(names, preferred) {
        seq![preferred.unwrap() + " (Unavailable)"@]
    } else {
        Seq::empty()
    }
}

pub open spec fn choice_values(names: Seq<Seq<char>>, preferred: Option<Seq<char>>) -> Seq<
    Option<Seq<char>>,
> {
    seq![None] + names.map_values(|n: Seq<char>| Some(n)) + if preferred_missing(names, preferred) {
        seq![preferred]
    } else {
        Seq::empty()
    }
}

/// The choice shown selected: the first that holds the preferred model, else the first.
pub open spec fn choice_selected(names: Seq<Seq<char>>, preferred: Option<Seq<char>>) -> int {
    match preferred {
        None => 0,
        Some(m) => if names.contains(m) {
            1 + choose|i: int| 0 <= i < names.len() && names[i] == m && forall|j: int| 0 <= j < i ==> names[j] != m
        } else {
            names.len() + 1 as int
        },
    }
}

pub fn model_choices(model_names: &[String], preferred_model: Option<&str>) -> (r: (
    Vec<String>,
    Vec<Option<String>>,
    u32,
))
    requires
        model_names@.len() < usize::MAX,
    ensures
        string_views(r.0@) == choice_labels(
            string_views(model_names@),
            match preferred_model {
                Some(m) => Some(m@),
                None => None,
            },
        ),
        opt_views(r.1@) == choice_values(
            string_views(model_names@),
            match preferred_model {
                Some(m) => Some(m@),
                None => None,
            },
        ),
        r.2 == choice_selected(
            string_views(model_names@),
            match preferred_model {
                Some(m) => Some(m@),
                None => None,
            },
        ) as u32,
{
    let ghost names = string_views(model_names@);
    let ghost pref: Option<Seq<char>> = match preferred_model {
        Some(m) => Some(m@),
        None => None,
    };
    let mut labels: Vec<String> = Vec::new();
    let mut values: Vec<Option<String>> = Vec::new();
    labels.push(to_owned_string("Use Selected Model"));
    values.push(None);
    let mut found: Option<usize> = None;
    let mut i: usize = 0;
    while i < model_names.len()
        invariant
            i <= model_names.len(),
            names == string_views(model_names@),
            pref == (match preferred_model {
                Some(m) => Some(m@),
                None => None,
            }),
            string_views(labels@) == seq!["Use Selected Model"@] + names.subrange(0, i as int),
            opt_views(values@) == seq![None] + names.subrange(0, i as int).map_values(
                |n: Seq<char>| Some(n),
            ),
            match found {
                Some(k) => k < i && pref is Some && names[k as int] == pref.unwrap() && forall|j: int|
                    0 <= j < k ==> names[j] != pref.unwrap(),
                None => pref is None || forall|j: int| 0 <= j < i ==> names[j] != pref.unwrap(),
            },
        decreases model_names.len() - i,
    {
        let ghost l0 = labels@;
        let ghost v0 = values@;
        labels.push(model_names[i].clone());
        values.push(Some(model_names[i].clone()));
        assert(string_views(labels@) =~= string_views(l0).push(names[i as int]));
        assert(names.subrange(0, i + 1) =~= names.subrange(0, i as int).push(names[i as int]));
        assert(string_views(labels@) =~= seq!["Use Selected Model"@] + names.subrange(0, i + 1));
        assert(opt_views(values@) =~= opt_views(v0).push(Some(names[i as int])));
        assert(opt_views(values@) =~= seq![None] + names.subrange(0, i + 1).map_values(
            |n: Seq<char>| Some(n),
        ));
        assert(names[i as int] == model_names@[i as int]@);
        if found.is_none() {
            match preferred_model {
                Some(m) => {
                    if str_eq(model_names[i].as_str(), m) {
                        found = Some(i);
                    }
                },
                None => {},
            }
        }
        i = i + 1;
    }
    assert(names.subrange(0, model_names.len() as int) =~= names);
    let selected: usize = match preferred_model {
        None => 0,
        Some(m) => match found {
            Some(k) => {
                proof {
                    let c = choose|x: int|
                        0 <= x < names.len() && names[x] == m@ && forall|j: int|
                            0 <= j < x ==> names[j] != m@;
                    assert(0 <= k < names.len() && names[k as int] == m@ && forall|j: int|
                        0 <= j < k ==> names[j] != m@);
                    if c < k {
                        assert(names[c] != m@);
                    }
                    if c > k {
                        assert(names[k as int] != m@);
                    }
                }
                k + 1
            },
            None => {
                proof {
                    if names.contains(m@) {
                        let x = choose|x: int| 0 <= x < names.len() && names[x] == m@;
                        assert(names[x] != m@);
                    }
                }
                let ghost l0 = labels@;
                let ghost v0 = values@;
                let mut label = to_owned_string(m);
                push_str(&mut label, " (Unavailable)");
                labels.push(label);
                values.push(Some(to_owned_string(m)));
                assert(string_views(labels@) =~= string_views(l0).push(m@ + " (Unavailable)"@));
                assert(opt_views(values@) =~= opt_views(v0).push(Some(m@)));
                model_names.len() + 1
            },
        },
    };
    proof {
        if !preferred_missing(names, pref) {
            assert(string_views(labels@) =~= choice_labels(names, pref));
            assert(opt_views(values@) =~= choice_values(names, pref));
        }
    }
    (labels, values, selected as u32)
}

proof fn lemma_decimal_digits(n: nat)
    ensures
        all_digits(decimal(n)),
        digits_value(decimal(n)) == n,
        decimal(n).len() > 0,
    decreases n,
{
    let d = (n % 10) as nat;
    assert(digit_char(d) as u32 == d + 48);
    assert(digit_char(d) as int == d + 48);
    if n < 10 {
        assert(d == n);
        assert(decimal(n) == seq![digit_char(n)]);
        assert(decimal(n).drop_last() =~= Seq::<char>::empty());
        assert(decimal(n).last() == digit_char(n));
        assert(digits_value(decimal(n)) == digits_value(Seq::<char>::empty()) * 10 + (digit_char(n) as int - 48));
    } else {
        lemma_decimal_digits(n / 10);
        let s = decimal(n);
        assert(s == decimal(n / 10).push(digit_char(d)));
        assert(s.drop_last() =~= decimal(n / 10));
        assert(s.last() == digit_char(d));
        assert(digits_value(s) == digits_value(decimal(n / 10)) * 10 + (digit_char(d) as int - 48));
        assert((n / 10) * 10 + d == n);
        assert forall|i: int| 0 <= i < s.len() implies is_ascii_digit(#[trigger] s[i]) by {
            if i < s.len() - 1 {
                assert(s[i] == decimal(n / 10)[i]);
            }
        }
    }
}

/// A number written in decimal reads back as the same number.
pub proof fn lemma_parse_reads_decimal(n: u64)
    requires
        n <= i64::MAX,
    ensures
        i64_value(decimal(n as nat)) == Some(n as i64),
{
    lemma_decimal_digits(n as nat);
    let s = decimal(n as nat);
    assert(is_ascii_digit(s[0]));
}

// ----------------------------------------------------------------------
// The profile chooser.
// ----------------------------------------------------------------------

pub open spec fn pair_firsts(v: Seq<(String, String)>) -> Seq<Seq<char>> {
    v.map_values(|p: (String, String)| p.0@)
}

pub open spec fn pair_seconds(v: Seq<(String, String)>) -> Seq<Seq<char>> {
    v.map_values(|p: (String, String)| p.1@)
}

/// The profile shown selected: the first whose id is the selected one
/// (counting "No Profile" as the first choice), else "No Profile".
pub open spec fn profile_selected(ids: Seq<Seq<char>>, selected: Option<Seq<char>>) -> int {
    match selected {
        Some(id) => if ids.contains(id) {
            1 + choose|i: int| 0 <= i < ids.len() && ids[i] == id && forall|j: int| 0 <= j < i ==> ids[j] != id
        } else {
            0
        },
        None => 0,
    }
}

/// The choices of the profile chooser for profiles given as `(id, name)`:
/// "No Profile", then each profile's name; and the choice shown selected.
pub fn profile_choices(profiles: &[(String, String)], selected_profile_id: Option<&str>) -> (r: (
    Vec<String>,
    u32,
))
    requires
        profiles@.len() < usize::MAX,
    ensures
        string_views(r.0@) == seq!["No Profile"@] + pair_seconds(profiles@),
        r.1 == profile_selected(
            pair_firsts(profiles@),
            match selected_profile_id {
                Some(s) => Some(s@),
                None => None,
            },
        ) as u32,
{
    let ghost ids = pair_firsts(profiles@);
    let ghost names = pair_seconds(profiles@);
    let ghost sel: Option<Seq<char>> = match selected_profile_id {
        Some(s) => Some(s@),
        None => None,
    };
    let mut labels: Vec<String> = Vec::new();
    labels.push(to_owned_string("No Profile"));
    let mut found: Option<usize> = None;
    let mut i: usize = 0;
    while i < profiles.len()
        invariant
            i <= profiles.len(),
            ids == pair_firsts(profiles@),
            names == pair_seconds(profiles@),
            sel == (match selected_profile_id {
                Some(s) => Some(s@),
                None => None,
            }),
            string_views(labels@) == seq!["No Profile"@] + names.subrange(0, i as int),
            match found {
                Some(k) => k < i && sel is Some && ids[k as int] == sel.unwrap() && forall|j: int|
                    0 <= j < k ==> ids[j] != sel.unwrap(),
                None => sel is None || forall|j: int| 0 <= j < i ==> ids[j] != sel.unwrap(),
            },
        decreases profiles.len() - i,
    {
        let ghost l0 = labels@;
        labels.push(profiles[i].1.clone());
        assert(names[i as int] == profiles@[i as int].1@);
        assert(ids[i as int] == profiles@[i as int].0@);
        assert(string_views(labels@) =~= string_views(l0).push(names[i as int]));
        assert(names.subrange(0, i + 1) =~= names.subrange(0, i as int).push(names[i as int]));
        if found.is_none() {
            match selected_profile_id {
                Some(s) => {
                    if str_eq(profiles[i].0.as_str(), s) {
                        found = Some(i);
                    }
                },
                None => {},
            }
        }
        i = i + 1;
    }
    assert(names.subrange(0, profiles.len() as int) =~= names);
    let selected: usize = match found {
        Some(k) => {
            proof {
                let s = sel.unwrap();
                let c = choose|x: int| 0 <= x < ids.len() && ids[x] == s && forall|j: int| 0 <= j < x ==> ids[j] != s;
                assert(0 <= k < ids.len() && ids[k as int] == s && forall|j: int| 0 <= j < k ==> ids[j] != s);
                if c < k {
                    assert(ids[c] != s);
                }
                if c > k {
                    assert(ids[k as int] != s);
                }
            }
            k + 1
        },
        None => {
            proof {
                if sel is Some && ids.contains(sel.unwrap()) {
                    let x = choose|x: int| 0 <= x < ids.len() && ids[x] == sel.unwrap();
                    assert(ids[x] != sel.unwrap());
                }
            }
            0
        },
    };
    (labels, selected as u32)
}

} // verus!
