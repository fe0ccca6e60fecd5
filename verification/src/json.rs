//! Issue field data as plain values, and pointer lookup into it.
//!
//! The tracker returns each issue's fields as structured JSON. The timesheet
//! logic reads that data in one way only: a slash-delimited pointer path
//! (`/customfield_100/child`) names a value below the field mapping, and a
//! dynamic worklog attribute takes the string found there. This module models
//! the data and specifies and implements that lookup.

use vstd::prelude::*;
use vstd::string::StrSliceExecFns;

verus! {

/// A JSON value as the tracker returns it inside an issue's fields.
///
/// A number keeps only its decimal text: the timesheet logic never computes
/// with numbers, it only needs to know that a number is not a string.
#[derive(Debug)]
pub enum JsonValue {
    Null,
    Bool(bool),
    Number(String),
    Str(String),
    Array(Vec<JsonValue>),
    Object(Vec<(String, JsonValue)>),
}

/// Index of the first '/' in `s`, or `s.len()` if there is none.
pub open spec fn first_slash(s: Seq<char>) -> int
    decreases s.len(),
{
    if s.len() == 0 {
        0
    } else if s[0] == '/' {
        0
    } else {
        1 + first_slash(s.drop_first())
    }
}

/// A pointer token with `~1` read back as '/' and `~0` as '~'.
pub open spec fn unescape(s: Seq<char>) -> Seq<char>
    decreases s.len(),
{
    if s.len() == 0 {
        Seq::empty()
    } else if s.len() >= 2 && s[0] == '~' && s[1] == '1' {
        seq!['/'] + unescape(s.skip(2))
    } else if s.len() >= 2 && s[0] == '~' && s[1] == '0' {
        seq!['~'] + unescape(s.skip(2))
    } else {
        seq![s[0]] + unescape(s.skip(1))
    }
}

pub open spec fn is_digit(c: char) -> bool {
    48 <= c as u32 && c as u32 <= 57
}

pub open spec fn digit_val(c: char) -> int {
    c as u32 - 48
}

pub open spec fn all_digits(s: Seq<char>) -> bool {
    forall|i: int| 0 <= i < s.len() ==> is_digit(#[trigger] s[i])
}

/// Numeric value of a digit string, most significant digit first.
pub open spec fn digits_val(s: Seq<char>) -> int
    decreases s.len(),
{
    if s.len() == 0 {
        0
    } else {
        10 * digits_val(s.drop_last()) + digit_val(s.last())
    }
}

/// An array index as the pointer grammar accepts it: decimal digits only, no
/// leading zero unless the token is exactly "0", and a value that fits the
/// machine's index type.
pub open spec fn spec_parse_index(s: Seq<char>) -> Option<int> {
    if s.len() == 0 {
        None
    } else if !all_digits(s) {
        None
    } else if s[0] == '0' && s.len() != 1 {
        None
    } else if digits_val(s) > usize::MAX {
        None
    } else {
        Some(digits_val(s))
    }
}

/// First entry with the given key, searched front to back.
pub open spec fn spec_lookup(entries: Seq<(String, JsonValue)>, key: Seq<char>) -> Option<
    JsonValue,
>
    decreases entries.len(),
{
    if entries.len() == 0 {
        None
    } else if entries[0].0@ == key {
        Some(entries[0].1)
    } else {
        spec_lookup(entries.drop_first(), key)
    }
}

/// One pointer step: a single token applied to a single value. A token selects
/// an entry of an object by key, an element of an array by index, and nothing
/// from any other value.
pub open spec fn spec_step(v: JsonValue, token: Seq<char>) -> Option<JsonValue> {
    match v {
        JsonValue::Object(entries) => spec_lookup(entries@, token),
        JsonValue::Array(items) => match spec_parse_index(token) {
            Some(i) => if i < items@.len() {
                Some(items@[i])
            } else {
                None
            },
            None => None,
        },
        _ => None,
    }
}

/// The value that `rest`, a pointer with its leading '/' removed, names below
/// `v`: the first token steps into `v`, and the remainder descends from there.
pub open spec fn spec_descend(v: JsonValue, rest: Seq<char>) -> Option<JsonValue>
    decreases rest.len(),
    via spec_descend_decreases
{
    let k = first_slash(rest);
    let token = unescape(rest.take(k));
    match spec_step(v, token) {
        None => None,
        Some(c) => if k == rest.len() {
            Some(c)
        } else {
            spec_descend(c, rest.skip(k + 1))
        },
    }
}

#[via_fn]
proof fn spec_descend_decreases(v: JsonValue, rest: Seq<char>) {
    lemma_first_slash_bounds(rest);
}

/// The value `path` names below the field mapping `fields`, if any. The empty
/// pointer names the whole mapping, which is not a single value here, and a
/// non-empty pointer that does not start with '/' names nothing.
pub open spec fn spec_pointer_in_fields(
    fields: Seq<(String, JsonValue)>,
    path: Seq<char>,
) -> Option<JsonValue> {
    if path.len() == 0 || path[0] != '/' {
        None
    } else {
        let rest = path.skip(1);
        let k = first_slash(rest);
        let token = unescape(rest.take(k));
        match spec_lookup(fields, token) {
            None => None,
            Some(c) => if k == rest.len() {
                Some(c)
            } else {
                spec_descend(c, rest.skip(k + 1))
            },
        }
    }
}

proof fn lemma_first_slash_bounds(s: Seq<char>)
    ensures
        0 <= first_slash(s) <= s.len(),
        forall|i: int| 0 <= i < first_slash(s) ==> s[i] != '/',
        first_slash(s) < s.len() ==> s[first_slash(s)] == '/',
    decreases s.len(),
{
    if s.len() > 0 && s[0] != '/' {
        lemma_first_slash_bounds(s.drop_first());
        assert forall|i: int| 0 <= i < first_slash(s) implies s[i] != '/' by {
            if i > 0 {
                assert(s.drop_first()[i - 1] != '/');
            }
        }
    }
}

/// `first_slash` is pinned by its characteristic properties.
proof fn lemma_first_slash_from_scan(s: Seq<char>, m: int)
    requires
        0 <= m <= s.len(),
        forall|i: int| 0 <= i < m ==> s[i] != '/',
        m < s.len() ==> s[m] == '/',
    ensures
        first_slash(s) == m,
    decreases m,
{
    if m > 0 {
        lemma_first_slash_from_scan(s.drop_first(), m - 1);
    }
}

proof fn lemma_digits_val_nonneg(s: Seq<char>)
    requires
        all_digits(s),
    ensures
        digits_val(s) >= 0,
    decreases s.len(),
{
    if s.len() > 0 {
        lemma_digits_val_nonneg(s.drop_last());
    }
}

/// Appending digits to a digit string never lowers its value.
proof fn lemma_digits_val_extend(s: Seq<char>, m: int)
    requires
        all_digits(s),
        0 <= m <= s.len(),
    ensures
        digits_val(s) >= digits_val(s.take(m)),
    decreases s.len() - m,
{
    if m == s.len() {
        assert(s.take(m) =~= s);
    } else {
        lemma_digits_val_extend(s.drop_last(), m);
        assert(s.drop_last().take(m) =~= s.take(m));
        lemma_digits_val_nonneg(s.drop_last());
    }
}

/// Whether a string holds exactly the given characters.
fn string_eq_chars(s: &String, key: &Vec<char>) -> (b: bool)
    ensures
        b == (s@ == key@),
{
    let st = s.as_str();
    let n = st.unicode_len();
    if n != key.len() {
        return false;
    }
    let mut i: usize = 0;
    while i < n
        invariant
            i <= n,
            n == s@.len(),
            n == key@.len(),
            st@ == s@,
            forall|t: int| 0 <= t < i ==> s@[t] == key@[t],
        decreases n - i,
    {
        if st.get_char(i) != key[i] {
            return false;
        }
        i += 1;
    }
    proof {
        assert(s@ =~= key@);
    }
    true
}

/// Smallest position in `i..n` where `path` holds a '/', or `n` if none.
fn scan_token_end(path: &str, i: usize, n: usize) -> (j: usize)
    requires
        i <= n,
        n == path@.len(),
    ensures
        i <= j <= n,
        j - i == first_slash(path@.skip(i as int)),
{
    let mut j = i;
    loop
        invariant
            i <= j <= n,
            n == path@.len(),
            forall|t: int| i <= t < j ==> path@[t] != '/',
        ensures
            i <= j <= n,
            forall|t: int| i <= t < j ==> path@[t] != '/',
            j < n ==> path@[j as int] == '/',
        decreases n - j,
    {
        if j == n {
            break;
        }
        if path.get_char(j) == '/' {
            break;
        }
        j += 1;
    }
    proof {
        let s = path@.skip(i as int);
        assert forall|t: int| 0 <= t < j - i implies s[t] != '/' by {
            assert(path@[t + i] != '/');
        }
        lemma_first_slash_from_scan(s, j - i);
    }
    j
}

/// The token `path[i..j]` with its escapes read back.
fn unescape_token(path: &str, i: usize, j: usize) -> (t: Vec<char>)
    requires
        i <= j <= path@.len(),
    ensures
        t@ == unescape(path@.subrange(i as int, j as int)),
{
    let mut t: Vec<char> = Vec::new();
    let mut k = i;
    while k < j
        invariant
            i <= k <= j <= path@.len(),
            unescape(path@.subrange(i as int, j as int)) == t@ + unescape(
                path@.subrange(k as int, j as int),
            ),
        decreases j - k,
    {
        let ghost s = path@.subrange(k as int, j as int);
        let ghost t_old = t@;
        let c = path.get_char(k);
        if c == '~' && k + 1 < j && path.get_char(k + 1) == '1' {
            t.push('/');
            k += 2;
            proof {
                assert(s.skip(2) =~= path@.subrange(k as int, j as int));
                assert(t@ + unescape(path@.subrange(k as int, j as int)) =~= t_old + unescape(s));
            }
        } else if c == '~' && k + 1 < j && path.get_char(k + 1) == '0' {
            t.push('~');
            k += 2;
            proof {
                assert(s.skip(2) =~= path@.subrange(k as int, j as int));
                assert(t@ + unescape(path@.subrange(k as int, j as int)) =~= t_old + unescape(s));
            }
        } else {
            t.push(c);
            k += 1;
            proof {
                assert(s.skip(1) =~= path@.subrange(k as int, j as int));
                assert(t@ + unescape(path@.subrange(k as int, j as int)) =~= t_old + unescape(s));
            }
        }
    }
    proof {
        assert(path@.subrange(k as int, j as int) =~= Seq::<char>::empty());
        assert(t@ + unescape(path@.subrange(k as int, j as int)) =~= t@);
    }
    t
}

/// The array index a token names, if it is a well-formed one.
fn parse_index(token: &Vec<char>) -> (r: Option<usize>)
    ensures
        match r {
            Some(i) => spec_parse_index(token@) == Some(i as int),
            None => spec_parse_index(token@) is None,
        },
{
    let n = token.len();
    if n == 0 {
        return None;
    }
    if token[0] == '0' && n != 1 {
        return None;
    }
    let mut val: u128 = 0;
    let mut i: usize = 0;
    while i < n
        invariant
            i <= n,
            n == token@.len(),
            all_digits(token@.take(i as int)),
            val == digits_val(token@.take(i as int)),
            val <= usize::MAX,
        decreases n - i,
    {
        let c = token[i];
        let u = c as u32;
        if u < 48 || u > 57 {
            return None;
        }
        let d = (u - 48) as u128;
        proof {
            assert(token@.take(i + 1).drop_last() =~= token@.take(i as int));
            assert(token@.take(i + 1).last() == token@[i as int]);
        }
        val = val * 10 + d;
        i += 1;
        if val > usize::MAX as u128 {
            proof {
                if all_digits(token@) {
                    lemma_digits_val_extend(token@, i as int);
                }
            }
            return None;
        }
    }
    proof {
        assert(token@.take(n as int) =~= token@);
    }
    Some(val as usize)
}

/// If every key in a prefix misses, lookup starts past that prefix.
proof fn lemma_lookup_skip(entries: Seq<(String, JsonValue)>, key: Seq<char>, i: int)
    requires
        0 <= i <= entries.len(),
        forall|t: int| 0 <= t < i ==> (#[trigger] entries[t]).0@ != key,
    ensures
        spec_lookup(entries, key) == spec_lookup(entries.skip(i), key),
    decreases i,
{
    if i > 0 {
        assert(entries[0].0@ != key);
        assert forall|t: int| 0 <= t < i - 1 implies (#[trigger] entries.drop_first()[t]).0@
            != key by {
            assert(entries[t + 1].0@ != key);
        }
        lemma_lookup_skip(entries.drop_first(), key, i - 1);
        assert(entries.drop_first().skip(i - 1) =~= entries.skip(i));
    } else {
        assert(entries.skip(0) =~= entries);
    }
}

/// The first entry whose key equals the token, searched front to back.
fn lookup_entries<'a>(entries: &'a Vec<(String, JsonValue)>, key: &Vec<char>) -> (r: Option<
    &'a JsonValue,
>)
    ensures
        match r {
            Some(c) => spec_lookup(entries@, key@) == Some(*c),
            None => spec_lookup(entries@, key@) is None,
        },
{
    let n = entries.len();
    let mut i: usize = 0;
    while i < n
        invariant
            i <= n,
            n == entries@.len(),
            forall|t: int| 0 <= t < i ==> (#[trigger] entries@[t]).0@ != key@,
        decreases n - i,
    {
        if string_eq_chars(&entries[i].0, key) {
            proof {
                lemma_lookup_skip(entries@, key@, i as int);
                assert(entries@.skip(i as int)[0] == entries@[i as int]);
            }
            return Some(&entries[i].1);
        }
        i += 1;
    }
    proof {
        lemma_lookup_skip(entries@, key@, n as int);
        assert(entries@.skip(n as int) =~= Seq::<(String, JsonValue)>::empty());
    }
    None
}

/// Whether a string slice holds exactly the same characters as a string.
fn str_eq_string(a: &str, b: &String) -> (r: bool)
    ensures
        r == (a@ == b@),
{
    let bs = b.as_str();
    let n = a.unicode_len();
    if n != bs.unicode_len() {
        return false;
    }
    let mut i: usize = 0;
    while i < n
        invariant
            i <= n,
            n == a@.len(),
            n == b@.len(),
            bs@ == b@,
            forall|t: int| 0 <= t < i ==> a@[t] == b@[t],
        decreases n - i,
    {
        if a.get_char(i) != bs.get_char(i) {
            return false;
        }
        i += 1;
    }
    proof {
        assert(a@ =~= b@);
    }
    true
}

/// The first entry of a field mapping whose key equals `key`.
pub fn lookup_field<'a>(entries: &'a Vec<(String, JsonValue)>, key: &str) -> (r: Option<
    &'a JsonValue,
>)
    ensures
        match r {
            Some(c) => spec_lookup(entries@, key@) == Some(*c),
            None => spec_lookup(entries@, key@) is None,
        },
{
    let n = entries.len();
    let mut i: usize = 0;
    while i < n
        invariant
            i <= n,
            n == entries@.len(),
            forall|t: int| 0 <= t < i ==> (#[trigger] entries@[t]).0@ != key@,
        decreases n - i,
    {
        if str_eq_string(key, &entries[i].0) {
            proof {
                lemma_lookup_skip(entries@, key@, i as int);
                assert(entries@.skip(i as int)[0] == entries@[i as int]);
            }
            return Some(&entries[i].1);
        }
        i += 1;
    }
    proof {
        lemma_lookup_skip(entries@, key@, n as int);
        assert(entries@.skip(n as int) =~= Seq::<(String, JsonValue)>::empty());
    }
    None
}

/// One pointer step in executable form.
fn step<'a>(v: &'a JsonValue, token: &Vec<char>) -> (r: Option<&'a JsonValue>)
    ensures
        match r {
            Some(c) => spec_step(*v, token@) == Some(*c),
            None => spec_step(*v, token@) is None,
        },
{
    match v {
        JsonValue::Object(entries) => lookup_entries(entries, token),
        JsonValue::Array(items) => match parse_index(token) {
            Some(idx) => if idx < items.len() {
                Some(&items[idx])
            } else {
                None
            },
            None => None,
        },
        _ => None,
    }
}

/// Descends from `v` along the tokens of `path[i..]`, `i` standing just after
/// a '/'.
fn descend<'a>(v: &'a JsonValue, path: &str, i: usize, n: usize) -> (r: Option<&'a JsonValue>)
    requires
        i <= n,
        n == path@.len(),
    ensures
        match r {
            Some(c) => spec_descend(*v, path@.skip(i as int)) == Some(*c),
            None => spec_descend(*v, path@.skip(i as int)) is None,
        },
    decreases n - i,
{
    let ghost rest = path@.skip(i as int);
    let j = scan_token_end(path, i, n);
    let token = unescape_token(path, i, j);
    proof {
        assert(rest.take(j - i) =~= path@.subrange(i as int, j as int));
    }
    match step(v, &token) {
        None => None,
        Some(c) => {
            if j == n {
                Some(c)
            } else {
                proof {
                    assert(rest.skip(j - i + 1) =~= path@.skip(j + 1));
                }
                descend(c, path, j + 1, n)
            }
        },
    }
}

/// The value `path` names below the field mapping `fields`, if any.
pub fn pointer_in_fields<'a>(fields: &'a Vec<(String, JsonValue)>, path: &String) -> (r: Option<
    &'a JsonValue,
>)
    ensures
        match r {
            Some(v) => spec_pointer_in_fields(fields@, path@) == Some(*v),
            None => spec_pointer_in_fields(fields@, path@) is None,
        },
{
    let p = path.as_str();
    let n = p.unicode_len();
    if n == 0 {
        return None;
    }
    if p.get_char(0) != '/' {
        return None;
    }
    let ghost rest = path@.skip(1);
    let j = scan_token_end(p, 1, n);
    proof {
        assert(first_slash(rest) == j - 1) by {
            assert(p@.skip(1) =~= rest);
        }
        assert(rest.take(j - 1) =~= path@.subrange(1, j as int));
    }
    let token = unescape_token(p, 1, j);
    match lookup_entries(fields, &token) {
        None => None,
        Some(c) => {
            if j == n {
                Some(c)
            } else {
                proof {
                    assert(rest.skip(j - 1 + 1) =~= path@.skip(j + 1));
                }
                descend(c, p, j + 1, n)
            }
        },
    }
}

} // verus!

