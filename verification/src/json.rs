//! Recovery of the ordered chapter list from a page's embedded JSON state
//! blob.
//!
//! The decoder does not build a JSON tree. It streams through the nested
//! path `props.pageProps.__APOLLO_STATE__`, skipping every sibling value
//! unread, and scans the keys of the state object: every key that starts
//! with the episode-entity prefix contributes the key with the prefix
//! stripped, in the order the keys appear. Key order and duplicates are
//! preserved; values are parsed only far enough to be skipped.
//!
//! The scan validates what it skips: strings must close, with only legal
//! escapes inside; numbers and the three keyword literals must follow the
//! JSON grammar; objects and arrays must be properly delimited. Two
//! deliberate departures from a full JSON reader remain: escape sequences
//! inside keys are kept verbatim rather than decoded — a key that spells
//! the prefix or an identifier through escapes keeps its escaped spelling
//! here where a decoding reader would resolve it — and whatever follows
//! the state object is not read at all. Malformed text anywhere on the
//! path to the state object, or inside it, yields `None` from the
//! spec-level scan and a [`DecodeError`] from [`decode`].

use vstd::prelude::*;

use crate::text::str_range_eq;

verus! {

/// JSON insignificant whitespace.
pub open spec fn is_json_ws(c: char) -> bool {
    c == ' ' || c == '\t' || c == '\n' || c == '\r'
}

/// A decimal digit.
pub open spec fn is_json_digit(c: char) -> bool {
    '0' as u32 <= c as u32 && c as u32 <= '9' as u32
}

/// A character that may follow a backslash on its own.
pub open spec fn is_simple_escape(c: char) -> bool {
    c == '"' || c == '\\' || c == '/' || c == 'b' || c == 'f' || c == 'n' || c == 'r' || c == 't'
}

/// A hexadecimal digit.
pub open spec fn is_hex_digit(c: char) -> bool {
    is_json_digit(c) || ('a' as u32 <= c as u32 && c as u32 <= 'f' as u32) || ('A' as u32 <= c
        as u32 && c as u32 <= 'F' as u32)
}

/// First position at or after `i` that holds no whitespace.
pub open spec fn sp_ws(s: Seq<char>, i: int) -> int
    decreases s.len() - i,
{
    if 0 <= i < s.len() && is_json_ws(s[i]) {
        sp_ws(s, i + 1)
    } else {
        i
    }
}

/// End of the run of decimal digits that starts at `i`.
pub open spec fn sp_digits(s: Seq<char>, i: int) -> int
    decreases s.len() - i,
{
    if 0 <= i < s.len() && is_json_digit(s[i]) {
        sp_digits(s, i + 1)
    } else {
        i
    }
}

/// Position just after the word `w` when it stands at `i`.
pub open spec fn sp_lit(s: Seq<char>, i: int, w: Seq<char>) -> Option<int> {
    if 0 <= i && i + w.len() <= s.len() && s.subrange(i, i + w.len()) == w {
        Some(i + w.len())
    } else {
        None
    }
}

/// Position just after an optional fraction part at `i`: a dot must carry
/// at least one digit.
pub open spec fn sp_frac(s: Seq<char>, i: int) -> Option<int> {
    if 0 <= i < s.len() && s[i] == '.' {
        let e = sp_digits(s, i + 1);
        if e > i + 1 {
            Some(e)
        } else {
            None
        }
    } else {
        Some(i)
    }
}

/// Position just after an optional exponent part at `i`: an exponent mark
/// must carry at least one digit after its optional sign.
pub open spec fn sp_exp(s: Seq<char>, i: int) -> Option<int> {
    if 0 <= i < s.len() && (s[i] == 'e' || s[i] == 'E') {
        let j = if i + 1 < s.len() && (s[i + 1] == '+' || s[i + 1] == '-') {
            i + 2
        } else {
            i + 1
        };
        let e = sp_digits(s, j);
        if e > j {
            Some(e)
        } else {
            None
        }
    } else {
        Some(i)
    }
}

/// Position just after the JSON number that starts at `i`: an optional
/// minus sign, an integer part without a leading zero, then optional
/// fraction and exponent parts.
pub open spec fn sp_number(s: Seq<char>, i: int) -> Option<int> {
    if i < 0 || i >= s.len() {
        None
    } else {
        let j = if s[i] == '-' {
            i + 1
        } else {
            i
        };
        if j >= s.len() || !is_json_digit(s[j]) {
            None
        } else {
            let ie = if s[j] == '0' {
                j + 1
            } else {
                sp_digits(s, j)
            };
            match sp_frac(s, ie) {
                None => None,
                Some(fe) => sp_exp(s, fe),
            }
        }
    }
}

/// Position just after the string literal that opens at `i`; `None` when
/// `i` holds no quote or the literal never closes.
pub open spec fn sp_string(s: Seq<char>, i: int) -> Option<int> {
    if 0 <= i < s.len() && s[i] == '"' {
        sp_string_body(s, i + 1)
    } else {
        None
    }
}

/// Position just after the closing quote, scanning from inside a string
/// literal. A backslash must start a JSON escape — one of the simple
/// escape characters, or `u` with four hexadecimal digits (a surrogate
/// escape is not checked for pairing) — and an unescaped control
/// character is refused.
pub open spec fn sp_string_body(s: Seq<char>, i: int) -> Option<int>
    decreases s.len() - i,
{
    if i < 0 || i >= s.len() {
        None
    } else if s[i] == '"' {
        Some(i + 1)
    } else if s[i] == '\\' {
        if i + 1 >= s.len() {
            None
        } else if is_simple_escape(s[i + 1]) {
            sp_string_body(s, i + 2)
        } else if s[i + 1] == 'u' {
            if i + 6 <= s.len() && is_hex_digit(s[i + 2]) && is_hex_digit(s[i + 3]) && is_hex_digit(
                s[i + 4],
            ) && is_hex_digit(s[i + 5]) {
                sp_string_body(s, i + 6)
            } else {
                None
            }
        } else {
            None
        }
    } else if (s[i] as u32) < 0x20 {
        None
    } else {
        sp_string_body(s, i + 1)
    }
}

/// Position just after the value that starts at or after `i`; `None` when
/// the text there is not a value that can be skipped.
pub open spec fn sp_value(s: Seq<char>, i: int, depth: nat) -> Option<int>
    decreases s.len() - i, 0int,
{
    let j = sp_ws(s, i);
    if j < i || j >= s.len() {
        None
    } else if s[j] == '"' {
        sp_string(s, j)
    } else if s[j] == '{' {
        if depth == 0 {
            None
        } else {
            sp_object_body(s, j + 1, true, (depth - 1) as nat)
        }
    } else if s[j] == '[' {
        if depth == 0 {
            None
        } else {
            sp_array_body(s, j + 1, true, (depth - 1) as nat)
        }
    } else if s[j] == 't' {
        sp_lit(s, j, "true"@)
    } else if s[j] == 'f' {
        sp_lit(s, j, "false"@)
    } else if s[j] == 'n' {
        sp_lit(s, j, "null"@)
    } else if s[j] == '-' || is_json_digit(s[j]) {
        sp_number(s, j)
    } else {
        None
    }
}

/// Position just after the `}` of an object whose members start at `i`;
/// `first` says no member has been read yet, so `}` may come at once.
pub open spec fn sp_object_body(s: Seq<char>, i: int, first: bool, depth: nat) -> Option<int>
    decreases s.len() - i, 1int,
{
    let j = sp_ws(s, i);
    if j < i || j >= s.len() {
        None
    } else if s[j] == '}' {
        if first {
            Some(j + 1)
        } else {
            None
        }
    } else {
        match sp_string(s, j) {
            None => None,
            Some(ke) => if ke <= j || ke > s.len() {
                None
            } else {
                let j2 = sp_ws(s, ke);
                if j2 < ke || j2 >= s.len() || s[j2] != ':' {
                    None
                } else {
                    match sp_value(s, j2 + 1, depth) {
                        None => None,
                        Some(ve) => if ve <= j2 || ve > s.len() {
                            None
                        } else {
                            let j3 = sp_ws(s, ve);
                            if j3 < ve || j3 >= s.len() {
                                None
                            } else if s[j3] == '}' {
                                Some(j3 + 1)
                            } else if s[j3] == ',' {
                                sp_object_body(s, j3 + 1, false, depth)
                            } else {
                                None
                            }
                        },
                    }
                }
            },
        }
    }
}

/// Position just after the `]` of an array whose elements start at `i`.
pub open spec fn sp_array_body(s: Seq<char>, i: int, first: bool, depth: nat) -> Option<int>
    decreases s.len() - i, 1int,
{
    let j = sp_ws(s, i);
    if j < i || j >= s.len() {
        None
    } else if s[j] == ']' {
        if first {
            Some(j + 1)
        } else {
            None
        }
    } else {
        match sp_value(s, j, depth) {
            None => None,
            Some(ve) => if ve <= j || ve > s.len() {
                None
            } else {
                let j2 = sp_ws(s, ve);
                if j2 < ve || j2 >= s.len() {
                    None
                } else if s[j2] == ']' {
                    Some(j2 + 1)
                } else if s[j2] == ',' {
                    sp_array_body(s, j2 + 1, false, depth)
                } else {
                    None
                }
            },
        }
    }
}

/// Expect an object at or after `i`; yield the position just after the `:`
/// of the first member named `key`. Sibling values are skipped unread.
/// `None`: malformed text, or the object closes without the key.
pub open spec fn sp_find_key(s: Seq<char>, i: int, key: Seq<char>, depth: nat) -> Option<int> {
    let j = sp_ws(s, i);
    if j < i || j >= s.len() || s[j] != '{' || depth == 0 {
        None
    } else {
        sp_find_in_members(s, j + 1, key, (depth - 1) as nat)
    }
}

/// Walk the members that start at `i` until one is named `key`.
pub open spec fn sp_find_in_members(s: Seq<char>, i: int, key: Seq<char>, depth: nat) -> Option<
    int,
>
    decreases s.len() - i,
{
    let j = sp_ws(s, i);
    if j < i || j >= s.len() || s[j] == '}' {
        None
    } else {
        match sp_string(s, j) {
            None => None,
            Some(ke) => if ke <= j + 1 || ke > s.len() {
                None
            } else {
                let j2 = sp_ws(s, ke);
                if j2 < ke || j2 >= s.len() || s[j2] != ':' {
                    None
                } else if s.subrange(j + 1, ke - 1) == key {
                    Some(j2 + 1)
                } else {
                    match sp_value(s, j2 + 1, depth) {
                        None => None,
                        Some(ve) => if ve <= j2 || ve > s.len() {
                            None
                        } else {
                            let j3 = sp_ws(s, ve);
                            if j3 < ve || j3 >= s.len() {
                                None
                            } else if s[j3] == ',' {
                                sp_find_in_members(s, j3 + 1, key, depth)
                            } else {
                                None
                            }
                        },
                    }
                }
            },
        }
    }
}

/// Expect an object at or after `i`; collect, in member order, every key
/// that strictly extends `pre`, with `pre` stripped — a key equal to
/// `pre` alone contributes nothing, so every collected identifier is
/// non-empty. Values are skipped unread.
pub open spec fn sp_collect(s: Seq<char>, i: int, pre: Seq<char>, depth: nat) -> Option<
    Seq<Seq<char>>,
> {
    let j = sp_ws(s, i);
    if j < i || j >= s.len() || s[j] != '{' || depth == 0 {
        None
    } else {
        sp_collect_members(s, j + 1, pre, true, (depth - 1) as nat)
    }
}

/// Walk the members that start at `i`, collecting stripped matching keys.
pub open spec fn sp_collect_members(
    s: Seq<char>,
    i: int,
    pre: Seq<char>,
    first: bool,
    depth: nat,
) -> Option<Seq<Seq<char>>>
    decreases s.len() - i,
{
    let j = sp_ws(s, i);
    if j < i || j >= s.len() {
        None
    } else if s[j] == '}' {
        if first {
            Some(Seq::empty())
        } else {
            None
        }
    } else {
        match sp_string(s, j) {
            None => None,
            Some(ke) => if ke <= j + 1 || ke > s.len() {
                None
            } else {
                let keyc = s.subrange(j + 1, ke - 1);
                let head: Seq<Seq<char>> = if keyc.len() > pre.len() && keyc.take(
                    pre.len() as int,
                ) == pre {
                    seq![keyc.skip(pre.len() as int)]
                } else {
                    Seq::empty()
                };
                let j2 = sp_ws(s, ke);
                if j2 < ke || j2 >= s.len() || s[j2] != ':' {
                    None
                } else {
                    match sp_value(s, j2 + 1, depth) {
                        None => None,
                        Some(ve) => if ve <= j2 || ve > s.len() {
                            None
                        } else {
                            let j3 = sp_ws(s, ve);
                            if j3 < ve || j3 >= s.len() {
                                None
                            } else if s[j3] == '}' {
                                Some(head)
                            } else if s[j3] == ',' {
                                match sp_collect_members(s, j3 + 1, pre, false, depth) {
                                    None => None,
                                    Some(rest) => Some(head + rest),
                                }
                            } else {
                                None
                            }
                        },
                    }
                }
            },
        }
    }
}

/// Nesting depth budget of the scan: a blob nested deeper than this fails
/// into a decode error, as a tree reader with a recursion limit would.
pub const MAX_DEPTH: usize = 128;

/// The chapter identifiers recovered from the embedded state blob: the
/// stripped episode-entity keys of the object at
/// `props.pageProps.__APOLLO_STATE__`, in key order.
pub open spec fn decode_spec(s: Seq<char>) -> Option<Seq<Seq<char>>> {
    match sp_find_key(s, 0, "props"@, MAX_DEPTH as nat) {
        None => None,
        Some(v1) => match sp_find_key(s, v1, "pageProps"@, (MAX_DEPTH - 1) as nat) {
            None => None,
            Some(v2) => match sp_find_key(s, v2, "__APOLLO_STATE__"@, (MAX_DEPTH - 2) as nat) {
                None => None,
                Some(v3) => sp_collect(s, v3, "Episode:"@, (MAX_DEPTH - 3) as nat),
            },
        },
    }
}

fn ws(s: &str, i: usize) -> (r: usize)
    requires
        i <= s@.len(),
    ensures
        r == sp_ws(s@, i as int),
        i <= r <= s@.len(),
{
    let n = s.unicode_len();
    let mut j = i;
    loop
        invariant_except_break
            i <= j <= n,
            n == s@.len(),
            sp_ws(s@, i as int) == sp_ws(s@, j as int),
        ensures
            i <= j <= s@.len(),
            sp_ws(s@, i as int) == j,
        decreases n - j,
    {
        if j >= n {
            break;
        }
        if !is_ws_exec(s.get_char(j)) {
            break;
        }
        j = j + 1;
    }
    j
}

fn is_ws_exec(c: char) -> (r: bool)
    ensures
        r == is_json_ws(c),
{
    c == ' ' || c == '\t' || c == '\n' || c == '\r'
}

fn is_digit_exec(c: char) -> (r: bool)
    ensures
        r == is_json_digit(c),
{
    let u = c as u32;
    '0' as u32 <= u && u <= '9' as u32
}

fn is_simple_escape_exec(c: char) -> (r: bool)
    ensures
        r == is_simple_escape(c),
{
    c == '"' || c == '\\' || c == '/' || c == 'b' || c == 'f' || c == 'n' || c == 'r' || c == 't'
}

fn is_hex_exec(c: char) -> (r: bool)
    ensures
        r == is_hex_digit(c),
{
    let u = c as u32;
    is_digit_exec(c) || ('a' as u32 <= u && u <= 'f' as u32) || ('A' as u32 <= u && u <= 'F' as u32)
}

fn digits(s: &str, i: usize) -> (r: usize)
    requires
        i <= s@.len(),
    ensures
        r == sp_digits(s@, i as int),
        i <= r <= s@.len(),
{
    let n = s.unicode_len();
    let mut j = i;
    loop
        invariant_except_break
            i <= j <= n,
            n == s@.len(),
            sp_digits(s@, i as int) == sp_digits(s@, j as int),
        ensures
            i <= j <= s@.len(),
            sp_digits(s@, i as int) == j,
        decreases n - j,
    {
        if j >= n {
            break;
        }
        if !is_digit_exec(s.get_char(j)) {
            break;
        }
        j = j + 1;
    }
    j
}

fn lit(s: &str, i: usize, w: &str) -> (r: Option<usize>)
    requires
        i <= s@.len(),
    ensures
        match r {
            Some(e) => sp_lit(s@, i as int, w@) == Some(e as int) && i <= e <= s@.len(),
            None => sp_lit(s@, i as int, w@) is None,
        },
{
    let n = s.unicode_len();
    let wn = w.unicode_len();
    if n - i >= wn && str_range_eq(s, i, i + wn, w) {
        Some(i + wn)
    } else {
        None
    }
}

fn number(s: &str, i: usize) -> (r: Option<usize>)
    requires
        i <= s@.len(),
    ensures
        match r {
            Some(e) => sp_number(s@, i as int) == Some(e as int) && i < e <= s@.len(),
            None => sp_number(s@, i as int) is None,
        },
{
    let n = s.unicode_len();
    if i >= n {
        return None;
    }
    let j: usize = if s.get_char(i) == '-' {
        i + 1
    } else {
        i
    };
    if j >= n {
        return None;
    }
    if !is_digit_exec(s.get_char(j)) {
        return None;
    }
    let ie: usize = if s.get_char(j) == '0' {
        j + 1
    } else {
        digits(s, j + 1)
    };
    let fe: usize;
    if ie < n && s.get_char(ie) == '.' {
        let e = digits(s, ie + 1);
        if e > ie + 1 {
            fe = e;
        } else {
            proof {
                assert(sp_frac(s@, ie as int) is None);
            }
            return None;
        }
    } else {
        fe = ie;
    }
    proof {
        assert(sp_frac(s@, ie as int) == Some(fe as int));
    }
    if fe < n && (s.get_char(fe) == 'e' || s.get_char(fe) == 'E') {
        let k: usize = if fe + 1 < n && (s.get_char(fe + 1) == '+' || s.get_char(fe + 1) == '-') {
            fe + 2
        } else {
            fe + 1
        };
        let e = digits(s, k);
        if e > k {
            Some(e)
        } else {
            None
        }
    } else {
        Some(fe)
    }
}

fn skip_string(s: &str, i: usize) -> (r: Option<usize>)
    requires
        i <= s@.len(),
    ensures
        match r {
            Some(e) => sp_string(s@, i as int) == Some(e as int) && i < e <= s@.len(),
            None => sp_string(s@, i as int) is None,
        },
{
    if i < s.unicode_len() && s.get_char(i) == '"' {
        skip_string_body(s, i + 1)
    } else {
        None
    }
}

fn skip_string_body(s: &str, i: usize) -> (r: Option<usize>)
    requires
        i <= s@.len(),
    ensures
        match r {
            Some(e) => sp_string_body(s@, i as int) == Some(e as int) && i < e <= s@.len(),
            None => sp_string_body(s@, i as int) is None,
        },
{
    let n = s.unicode_len();
    let mut j = i;
    let mut out: Option<usize> = None;
    loop
        invariant_except_break
            i <= j <= n,
            n == s@.len(),
            sp_string_body(s@, i as int) == sp_string_body(s@, j as int),
        ensures
            match out {
                Some(e) => sp_string_body(s@, i as int) == Some(e as int) && i < e <= s@.len(),
                None => sp_string_body(s@, i as int) is None,
            },
        decreases n - j,
    {
        if j >= n {
            out = None;
            break;
        }
        let c = s.get_char(j);
        if c == '"' {
            out = Some(j + 1);
            break;
        }
        if c == '\\' {
            if n - j < 2 {
                out = None;
                break;
            }
            let e = s.get_char(j + 1);
            if is_simple_escape_exec(e) {
                j = j + 2;
            } else if e == 'u' {
                if n - j >= 6 && is_hex_exec(s.get_char(j + 2)) && is_hex_exec(s.get_char(j + 3))
                    && is_hex_exec(s.get_char(j + 4)) && is_hex_exec(s.get_char(j + 5)) {
                    j = j + 6;
                } else {
                    out = None;
                    break;
                }
            } else {
                out = None;
                break;
            }
        } else if (c as u32) < 0x20 {
            out = None;
            break;
        } else {
            j = j + 1;
        }
    }
    out
}

fn skip_value(s: &str, i: usize, depth: usize) -> (r: Option<usize>)
    requires
        i <= s@.len(),
    ensures
        match r {
            Some(e) => sp_value(s@, i as int, depth as nat) == Some(e as int) && i < e <= s@.len(),
            None => sp_value(s@, i as int, depth as nat) is None,
        },
    decreases s@.len() - i, 0int,
{
    let j = ws(s, i);
    if j >= s.unicode_len() {
        None
    } else if s.get_char(j) == '"' {
        skip_string(s, j)
    } else if s.get_char(j) == '{' {
        if depth == 0 {
            None
        } else {
            skip_object_body(s, j + 1, true, depth - 1)
        }
    } else if s.get_char(j) == '[' {
        if depth == 0 {
            None
        } else {
            skip_array_body(s, j + 1, true, depth - 1)
        }
    } else if s.get_char(j) == 't' {
        let r = lit(s, j, "true");
        proof {
            reveal_strlit("true");
        }
        r
    } else if s.get_char(j) == 'f' {
        let r = lit(s, j, "false");
        proof {
            reveal_strlit("false");
        }
        r
    } else if s.get_char(j) == 'n' {
        let r = lit(s, j, "null");
        proof {
            reveal_strlit("null");
        }
        r
    } else if s.get_char(j) == '-' || is_digit_exec(s.get_char(j)) {
        number(s, j)
    } else {
        None
    }
}

fn skip_object_body(s: &str, i: usize, first: bool, depth: usize) -> (r: Option<usize>)
    requires
        i <= s@.len(),
    ensures
        match r {
            Some(e) => sp_object_body(s@, i as int, first, depth as nat) == Some(e as int) && i <= e
                <= s@.len(),
            None => sp_object_body(s@, i as int, first, depth as nat) is None,
        },
    decreases s@.len() - i, 1int,
{
    let n = s.unicode_len();
    let mut cur = i;
    let mut fst = first;
    let mut out: Option<usize> = None;
    loop
        invariant_except_break
            i <= cur <= n,
            n == s@.len(),
            sp_object_body(s@, i as int, first, depth as nat) == sp_object_body(
                s@,
                cur as int,
                fst,
                depth as nat,
            ),
        ensures
            match out {
                Some(e) => sp_object_body(s@, i as int, first, depth as nat) == Some(e as int) && i
                    <= e <= s@.len(),
                None => sp_object_body(s@, i as int, first, depth as nat) is None,
            },
        decreases n - cur,
    {
        let j = ws(s, cur);
        if j >= n {
            out = None;
            break;
        }
        if s.get_char(j) == '}' {
            out = if fst {
                Some(j + 1)
            } else {
                None
            };
            break;
        }
        match skip_string(s, j) {
            None => {
                out = None;
                break;
            },
            Some(ke) => {
                let j2 = ws(s, ke);
                if j2 >= n || s.get_char(j2) != ':' {
                    out = None;
                    break;
                }
                match skip_value(s, j2 + 1, depth) {
                    None => {
                        out = None;
                        break;
                    },
                    Some(ve) => {
                        let j3 = ws(s, ve);
                        if j3 >= n {
                            out = None;
                            break;
                        }
                        if s.get_char(j3) == '}' {
                            out = Some(j3 + 1);
                            break;
                        }
                        if s.get_char(j3) != ',' {
                            out = None;
                            break;
                        }
                        cur = j3 + 1;
                        fst = false;
                    },
                }
            },
        }
    }
    out
}

fn skip_array_body(s: &str, i: usize, first: bool, depth: usize) -> (r: Option<usize>)
    requires
        i <= s@.len(),
    ensures
        match r {
            Some(e) => sp_array_body(s@, i as int, first, depth as nat) == Some(e as int) && i <= e
                <= s@.len(),
            None => sp_array_body(s@, i as int, first, depth as nat) is None,
        },
    decreases s@.len() - i, 1int,
{
    let n = s.unicode_len();
    let mut cur = i;
    let mut fst = first;
    let mut out: Option<usize> = None;
    loop
        invariant_except_break
            i <= cur <= n,
            n == s@.len(),
            sp_array_body(s@, i as int, first, depth as nat) == sp_array_body(
                s@,
                cur as int,
                fst,
                depth as nat,
            ),
        ensures
            match out {
                Some(e) => sp_array_body(s@, i as int, first, depth as nat) == Some(e as int) && i
                    <= e <= s@.len(),
                None => sp_array_body(s@, i as int, first, depth as nat) is None,
            },
        decreases n - cur,
    {
        let j = ws(s, cur);
        if j >= n {
            out = None;
            break;
        }
        if s.get_char(j) == ']' {
            out = if fst {
                Some(j + 1)
            } else {
                None
            };
            break;
        }
        match skip_value(s, j, depth) {
            None => {
                out = None;
                break;
            },
            Some(ve) => {
                let j2 = ws(s, ve);
                if j2 >= n {
                    out = None;
                    break;
                }
                if s.get_char(j2) == ']' {
                    out = Some(j2 + 1);
                    break;
                }
                if s.get_char(j2) != ',' {
                    out = None;
                    break;
                }
                cur = j2 + 1;
                fst = false;
            },
        }
    }
    out
}

fn find_key(s: &str, i: usize, key: &str, depth: usize) -> (r: Option<usize>)
    requires
        i <= s@.len(),
    ensures
        match r {
            Some(e) => sp_find_key(s@, i as int, key@, depth as nat) == Some(e as int) && i <= e
                <= s@.len(),
            None => sp_find_key(s@, i as int, key@, depth as nat) is None,
        },
{
    let j = ws(s, i);
    if j >= s.unicode_len() || s.get_char(j) != '{' || depth == 0 {
        None
    } else {
        find_in_members(s, j + 1, key, depth - 1)
    }
}

fn find_in_members(s: &str, i: usize, key: &str, depth: usize) -> (r: Option<usize>)
    requires
        i <= s@.len(),
    ensures
        match r {
            Some(e) => sp_find_in_members(s@, i as int, key@, depth as nat) == Some(e as int) && i
                <= e <= s@.len(),
            None => sp_find_in_members(s@, i as int, key@, depth as nat) is None,
        },
{
    let n = s.unicode_len();
    let mut cur = i;
    let mut out: Option<usize> = None;
    loop
        invariant_except_break
            i <= cur <= n,
            n == s@.len(),
            sp_find_in_members(s@, i as int, key@, depth as nat) == sp_find_in_members(
                s@,
                cur as int,
                key@,
                depth as nat,
            ),
        ensures
            match out {
                Some(e) => sp_find_in_members(s@, i as int, key@, depth as nat) == Some(e as int)
                    && i <= e <= s@.len(),
                None => sp_find_in_members(s@, i as int, key@, depth as nat) is None,
            },
        decreases n - cur,
    {
        let j = ws(s, cur);
        if j >= n || s.get_char(j) == '}' {
            out = None;
            break;
        }
        match skip_string(s, j) {
            None => {
                out = None;
                break;
            },
            Some(ke) => {
                if ke <= j + 1 {
                    out = None;
                    break;
                }
                let j2 = ws(s, ke);
                if j2 >= n || s.get_char(j2) != ':' {
                    out = None;
                    break;
                }
                if str_range_eq(s, j + 1, ke - 1, key) {
                    out = Some(j2 + 1);
                    break;
                }
                match skip_value(s, j2 + 1, depth) {
                    None => {
                        out = None;
                        break;
                    },
                    Some(ve) => {
                        let j3 = ws(s, ve);
                        if j3 >= n {
                            out = None;
                            break;
                        }
                        if s.get_char(j3) != ',' {
                            out = None;
                            break;
                        }
                        cur = j3 + 1;
                    },
                }
            },
        }
    }
    out
}

fn collect_members(s: &str, i: usize, pre: &str, first: bool, depth: usize) -> (r: Option<
    Vec<String>,
>)
    requires
        i <= s@.len(),
    ensures
        match r {
            Some(v) => sp_collect_members(s@, i as int, pre@, first, depth as nat) == Some(
                v.deep_view(),
            ),
            None => sp_collect_members(s@, i as int, pre@, first, depth as nat) is None,
        },
{
    let n = s.unicode_len();
    let plen = pre.unicode_len();
    let mut cur = i;
    let mut fst = first;
    let mut acc: Vec<String> = Vec::new();
    let mut out: Option<Vec<String>> = None;
    loop
        invariant_except_break
            i <= cur <= n,
            n == s@.len(),
            plen == pre@.len(),
            sp_collect_members(s@, i as int, pre@, first, depth as nat) == (
            match sp_collect_members(s@, cur as int, pre@, fst, depth as nat) {
                None => None::<Seq<Seq<char>>>,
                Some(rest) => Some(acc.deep_view() + rest),
            }),
        ensures
            match out {
                Some(v) => sp_collect_members(s@, i as int, pre@, first, depth as nat) == Some(
                    v.deep_view(),
                ),
                None => sp_collect_members(s@, i as int, pre@, first, depth as nat) is None,
            },
        decreases n - cur,
    {
        let j = ws(s, cur);
        if j >= n {
            out = None;
            break;
        }
        if s.get_char(j) == '}' {
            if fst {
                proof {
                    assert(acc.deep_view() + Seq::<Seq<char>>::empty() =~= acc.deep_view());
                }
                out = Some(acc);
            } else {
                out = None;
            }
            break;
        }
        match skip_string(s, j) {
            None => {
                out = None;
                break;
            },
            Some(ke) => {
                if ke <= j + 1 {
                    out = None;
                    break;
                }
                let ghost keyc = s@.subrange(j + 1, ke - 1);
                let matched: bool = if ke - 1 - (j + 1) > plen {
                    let m = str_range_eq(s, j + 1, j + 1 + plen, pre);
                    proof {
                        assert(keyc.take(plen as int) =~= s@.subrange(j + 1, j + 1 + plen));
                    }
                    m
                } else {
                    false
                };
                let ghost head: Seq<Seq<char>> = if keyc.len() > pre@.len() && keyc.take(
                    pre@.len() as int,
                ) == pre@ {
                    seq![keyc.skip(pre@.len() as int)]
                } else {
                    Seq::empty()
                };
                let j2 = ws(s, ke);
                if j2 >= n || s.get_char(j2) != ':' {
                    out = None;
                    break;
                }
                match skip_value(s, j2 + 1, depth) {
                    None => {
                        out = None;
                        break;
                    },
                    Some(ve) => {
                        let j3 = ws(s, ve);
                        if j3 >= n {
                            out = None;
                            break;
                        }
                        let is_close = s.get_char(j3) == '}';
                        if !is_close && s.get_char(j3) != ',' {
                            out = None;
                            break;
                        }
                        let ghost acc0 = acc.deep_view();
                        if matched {
                            let id = s.substring_char(j + 1 + plen, ke - 1).to_owned();
                            proof {
                                assert(id@ =~= keyc.skip(plen as int));
                            }
                            acc.push(id);
                        }
                        proof {
                            assert(acc.deep_view() =~= acc0 + head);
                        }
                        if is_close {
                            out = Some(acc);
                            break;
                        }
                        proof {
                            if let Some(rest) = sp_collect_members(
                                s@,
                                j3 + 1,
                                pre@,
                                false,
                                depth as nat,
                            ) {
                                assert((acc0 + head) + rest =~= acc0 + (head + rest));
                            }
                        }
                        cur = j3 + 1;
                        fst = false;
                    },
                }
            },
        }
    }
    out
}

fn collect(s: &str, i: usize, pre: &str, depth: usize) -> (r: Option<Vec<String>>)
    requires
        i <= s@.len(),
    ensures
        match r {
            Some(v) => sp_collect(s@, i as int, pre@, depth as nat) == Some(v.deep_view()),
            None => sp_collect(s@, i as int, pre@, depth as nat) is None,
        },
{
    let j = ws(s, i);
    if j >= s.unicode_len() || s.get_char(j) != '{' || depth == 0 {
        None
    } else {
        collect_members(s, j + 1, pre, true, depth - 1)
    }
}

proof fn lemma_collect_members_nonempty(
    s: Seq<char>,
    i: int,
    pre: Seq<char>,
    first: bool,
    depth: nat,
)
    ensures
        sp_collect_members(s, i, pre, first, depth) matches Some(l) ==> forall|k: int|
            0 <= k < l.len() ==> #[trigger] l[k].len() > 0,
    decreases s.len() - i,
{
    let j = sp_ws(s, i);
    if j < i || j >= s.len() || s[j] == '}' {
    } else {
        match sp_string(s, j) {
            None => {},
            Some(ke) => {
                if !(ke <= j + 1 || ke > s.len()) {
                    let keyc = s.subrange(j + 1, ke - 1);
                    let head: Seq<Seq<char>> = if keyc.len() > pre.len() && keyc.take(
                        pre.len() as int,
                    ) == pre {
                        seq![keyc.skip(pre.len() as int)]
                    } else {
                        Seq::empty()
                    };
                    let j2 = sp_ws(s, ke);
                    if !(j2 < ke || j2 >= s.len() || s[j2] != ':') {
                        match sp_value(s, j2 + 1, depth) {
                            None => {},
                            Some(ve) => {
                                if !(ve <= j2 || ve > s.len()) {
                                    let j3 = sp_ws(s, ve);
                                    if !(j3 < ve || j3 >= s.len()) {
                                        if s[j3] == '}' {
                                            assert forall|k: int| 0 <= k < head.len() implies (
                                            #[trigger] head[k]).len() > 0 by {
                                                assert(head[k] == keyc.skip(pre.len() as int));
                                            }
                                        } else if s[j3] == ',' {
                                            lemma_collect_members_nonempty(
                                                s,
                                                j3 + 1,
                                                pre,
                                                false,
                                                depth,
                                            );
                                            match sp_collect_members(s, j3 + 1, pre, false, depth) {
                                                None => {},
                                                Some(rest) => {
                                                    let whole = head + rest;
                                                    assert forall|k: int|
                                                        0 <= k < whole.len() implies (
                                                    #[trigger] whole[k]).len() > 0 by {
                                                        if k < head.len() {
                                                            assert(whole[k] == keyc.skip(
                                                                pre.len() as int,
                                                            ));
                                                        } else {
                                                            assert(whole[k] == rest[k
                                                                - head.len()]);
                                                        }
                                                    }
                                                },
                                            }
                                        }
                                    }
                                }
                            },
                        }
                    }
                }
            },
        }
    }
}

/// Every identifier the decoder can return is non-empty: a key equal to
/// the episode prefix alone contributes nothing.
pub proof fn lemma_decode_ids_nonempty(s: Seq<char>)
    ensures
        decode_spec(s) matches Some(l) ==> forall|k: int|
            0 <= k < l.len() ==> #[trigger] l[k].len() > 0,
{
    match sp_find_key(s, 0, "props"@, MAX_DEPTH as nat) {
        None => {},
        Some(v1) => match sp_find_key(s, v1, "pageProps"@, (MAX_DEPTH - 1) as nat) {
            None => {},
            Some(v2) => match sp_find_key(s, v2, "__APOLLO_STATE__"@, (MAX_DEPTH - 2) as nat) {
                None => {},
                Some(v3) => {
                    let j = sp_ws(s, v3);
                    lemma_collect_members_nonempty(
                        s,
                        j + 1,
                        "Episode:"@,
                        true,
                        (MAX_DEPTH - 4) as nat,
                    );
                },
            },
        },
    }
}

/// The embedded state blob was present but could not be decoded: the JSON
/// is malformed, or the expected nested path is missing or wrongly shaped.
#[derive(Debug)]
pub struct DecodeError {}

/// Recover the ordered chapter identifiers from the raw JSON text of the
/// embedded state blob, as [`decode_spec`] states. Every identifier is
/// non-empty.
pub fn decode(s: &str) -> (r: Result<Vec<String>, DecodeError>)
    ensures
        match r {
            Ok(v) => decode_spec(s@) == Some(v.deep_view()),
            Err(e) => decode_spec(s@) is None,
        },
        r matches Ok(v) ==> forall|k: int|
            0 <= k < v.deep_view().len() ==> #[trigger] v.deep_view()[k].len() > 0,
{
    proof {
        lemma_decode_ids_nonempty(s@);
    }
    match find_key(s, 0, "props", MAX_DEPTH) {
        None => Err(DecodeError {}),
        Some(v1) => match find_key(s, v1, "pageProps", MAX_DEPTH - 1) {
            None => Err(DecodeError {}),
            Some(v2) => match find_key(s, v2, "__APOLLO_STATE__", MAX_DEPTH - 2) {
                None => Err(DecodeError {}),
                Some(v3) => match collect(s, v3, "Episode:", MAX_DEPTH - 3) {
                    None => Err(DecodeError {}),
                    Some(v) => {
                        proof {
                            assert(decode_spec(s@) == Some(v.deep_view()));
                            assert forall|k: int|
                                0 <= k < v.deep_view().len() implies (#[trigger] v.deep_view()[
                                k]).len() > 0 by {
                                let l = decode_spec(s@)->Some_0;
                                assert(l[k].len() > 0);
                            }
                        }
                        Ok(v)
                    },
                },
            },
        },
    }
}

} // verus!
