//! Splitting a work's display title into the bare title and an optional
//! embedded author name.
//!
//! The site renders a work page title as `name（author） - カクヨム`. The
//! splitter trims the raw string, strips the trailing site suffix, and then
//! takes the last full-width bracket pair as the author: earlier,
//! independent bracket pairs stay in the name verbatim. An author name may
//! itself contain nested full-width bracket pairs; for each closing
//! bracket found after the last opening bracket, the search walks backward
//! over one more opening bracket. When no balancing opening bracket exists
//! the walk stops early and keeps the last opening bracket found: a
//! lenient best-effort policy, not a strict balanced parser.

use vstd::prelude::*;

use crate::text::{
    count_char, count_in_range, find_last, last_pos, lemma_last_pos_bounds, lemma_last_pos_none,
    str_range_eq, trim_spec, trim_str,
};

verus! {

/// Full-width opening bracket that starts an author annotation.
pub const AUTHOR_OPEN: char = '（';

/// Full-width closing bracket that ends an author annotation.
pub const AUTHOR_CLOSE: char = '）';

/// The site's trailing suffix on work page titles.
pub open spec fn site_suffix() -> Seq<char> {
    " - カクヨム"@
}

/// `s` with the trailing site suffix removed, if present.
pub open spec fn strip_suffix_spec(s: Seq<char>) -> Seq<char> {
    if s.len() >= site_suffix().len() && s.skip(s.len() - site_suffix().len()) == site_suffix() {
        s.take(s.len() - site_suffix().len())
    } else {
        s
    }
}

/// The raw title trimmed of surrounding whitespace and stripped of the
/// trailing site suffix.
pub open spec fn normalize_spec(s: Seq<char>) -> Seq<char> {
    strip_suffix_spec(trim_spec(s))
}

/// Walk backward from opening bracket position `k`, one earlier opening
/// bracket per remaining nested close; stop early when none is left.
pub open spec fn walk_back(t: Seq<char>, k: int, count: nat) -> int
    decreases count,
{
    if count == 0 {
        k
    } else {
        match last_pos(t.take(k), AUTHOR_OPEN) {
            Some(j) => walk_back(t, j, (count - 1) as nat),
            None => k,
        }
    }
}

/// The name and optional author taken from an already-normalized title.
pub open spec fn split_core(t: Seq<char>) -> (Seq<char>, Option<Seq<char>>) {
    match last_pos(t, AUTHOR_CLOSE) {
        None => (t, None),
        Some(idx) => match last_pos(t.take(idx), AUTHOR_OPEN) {
            None => (t, None),
            Some(k0) => {
                let k = walk_back(t, k0, count_char(t.subrange(k0 + 1, idx), AUTHOR_CLOSE));
                (t.take(k), Some(t.subrange(k + 1, idx)))
            },
        },
    }
}

/// What [`Title::new`] returns for a raw title.
pub open spec fn split_spec(raw: Seq<char>) -> (Seq<char>, Option<Seq<char>>) {
    split_core(normalize_spec(raw))
}

fn strip_site_suffix(s: &str) -> (r: &str)
    ensures
        r@ == strip_suffix_spec(s@),
{
    let n = s.unicode_len();
    let suf = " - カクヨム";
    let sn = suf.unicode_len();
    if n >= sn && str_range_eq(s, n - sn, n, suf) {
        proof {
            assert(s@.skip(n - sn) =~= s@.subrange(n - sn, n as int));
        }
        s.substring_char(0, n - sn)
    } else {
        proof {
            if n >= sn {
                assert(s@.skip(n - sn) =~= s@.subrange(n - sn, n as int));
            }
        }
        s
    }
}

fn walk_back_str(t: &str, k: usize, count: usize) -> (r: usize)
    requires
        k <= t@.len(),
    ensures
        r as int == walk_back(t@, k as int, count as nat),
        r <= k,
    decreases count,
{
    if count == 0 {
        k
    } else {
        match find_last(t, AUTHOR_OPEN, k) {
            Some(j) => {
                proof {
                    lemma_last_pos_bounds(t@.take(k as int), AUTHOR_OPEN);
                }
                let r = walk_back_str(t, j, count - 1);
                r
            },
            None => k,
        }
    }
}

/// A work's display title split into the bare name and the optional author
/// annotation.
pub struct Title<'a> {
    pub name: &'a str,
    pub author: Option<&'a str>,
}

impl<'a> Title<'a> {
    /// Split a raw page title, as [`split_spec`] states: trim, strip the
    /// site suffix, then take the last full-width bracket pair as the
    /// author, walking over nested bracket pairs inside the author name.
    pub fn new(title: &'a str) -> (r: Self)
        ensures
            r.name@ == split_spec(title@).0,
            match (r.author, split_spec(title@).1) {
                (Some(a), Some(b)) => a@ == b,
                (None, None) => true,
                _ => false,
            },
    {
        let t = strip_site_suffix(trim_str(title));
        let n = t.unicode_len();
        proof {
            assert(t@.take(n as int) =~= t@);
        }
        match find_last(t, AUTHOR_CLOSE, n) {
            None => Title { name: t, author: None },
            Some(idx) => {
                proof {
                    lemma_last_pos_bounds(t@, AUTHOR_CLOSE);
                }
                match find_last(t, AUTHOR_OPEN, idx) {
                    None => Title { name: t, author: None },
                    Some(k0) => {
                        proof {
                            lemma_last_pos_bounds(t@.take(idx as int), AUTHOR_OPEN);
                        }
                        let cnt = count_in_range(t, AUTHOR_CLOSE, k0 + 1, idx);
                        let k = walk_back_str(t, k0, cnt);
                        let author = t.substring_char(k + 1, idx);
                        let name = t.substring_char(0, k);
                        proof {
                            assert(t@.subrange(0, k as int) =~= t@.take(k as int));
                        }
                        Title { name, author: Some(author) }
                    },
                }
            },
        }
    }
}

proof fn lemma_not_contains_drop_first(s: Seq<char>, c: char)
    requires
        s.len() > 0,
        !s.contains(c),
    ensures
        !s.drop_first().contains(c),
{
    if s.drop_first().contains(c) {
        let i = choose|i: int| 0 <= i < s.drop_first().len() && s.drop_first()[i] == c;
        assert(s[i + 1] == c);
    }
}

proof fn lemma_not_contains_drop_last(s: Seq<char>, c: char)
    requires
        s.len() > 0,
        !s.contains(c),
    ensures
        !s.drop_last().contains(c),
{
    if s.drop_last().contains(c) {
        let i = choose|i: int| 0 <= i < s.drop_last().len() && s.drop_last()[i] == c;
        assert(s[i] == c);
    }
}

proof fn lemma_not_contains_take(s: Seq<char>, c: char, k: int)
    requires
        0 <= k <= s.len(),
        !s.contains(c),
    ensures
        !s.take(k).contains(c),
{
    if s.take(k).contains(c) {
        let i = choose|i: int| 0 <= i < s.take(k).len() && s.take(k)[i] == c;
        assert(s[i] == c);
    }
}

proof fn lemma_normalize_not_contains(s: Seq<char>, c: char)
    requires
        !s.contains(c),
    ensures
        !normalize_spec(s).contains(c),
{
    lemma_trim_start_not_contains(s, c);
    lemma_trim_end_not_contains(crate::text::trim_start_spec(s), c);
    lemma_not_contains_take(
        trim_spec(s),
        c,
        if trim_spec(s).len() >= site_suffix().len() {
            trim_spec(s).len() - site_suffix().len()
        } else {
            trim_spec(s).len() as int
        },
    );
}

proof fn lemma_trim_start_not_contains(s: Seq<char>, c: char)
    requires
        !s.contains(c),
    ensures
        !crate::text::trim_start_spec(s).contains(c),
    decreases s.len(),
{
    if s.len() > 0 && crate::text::is_space_char(s[0]) {
        lemma_not_contains_drop_first(s, c);
        lemma_trim_start_not_contains(s.drop_first(), c);
    }
}

proof fn lemma_trim_end_not_contains(s: Seq<char>, c: char)
    requires
        !s.contains(c),
    ensures
        !crate::text::trim_end_spec(s).contains(c),
    decreases s.len(),
{
    if s.len() > 0 && crate::text::is_space_char(s.last()) {
        lemma_not_contains_drop_last(s, c);
        lemma_trim_end_not_contains(s.drop_last(), c);
    }
}

/// For every title without a closing full-width bracket anywhere, the split
/// yields no author and the name is exactly the trimmed, suffix-stripped
/// input.
pub proof fn lemma_split_no_close(raw: Seq<char>)
    requires
        !raw.contains(AUTHOR_CLOSE),
    ensures
        split_spec(raw) == (normalize_spec(raw), None::<Seq<char>>),
{
    lemma_normalize_not_contains(raw, AUTHOR_CLOSE);
    lemma_last_pos_none(normalize_spec(raw), AUTHOR_CLOSE);
}

/// A title is stable when normalizing changes nothing and no bracket pair
/// is left to take an author from.
pub open spec fn stable_title(s: Seq<char>) -> bool {
    &&& normalize_spec(s) == s
    &&& match last_pos(s, AUTHOR_CLOSE) {
        None => true,
        Some(idx) => last_pos(s.take(idx), AUTHOR_OPEN) is None,
    }
}

/// An already-stripped title is a fixed point of the split: nothing is
/// trimmed, stripped or taken as an author.
pub proof fn lemma_split_fixed_point(s: Seq<char>)
    requires
        stable_title(s),
    ensures
        split_spec(s) == (s, None::<Seq<char>>),
{
}

/// Splitting the name a second time changes nothing further, for every
/// title whose first split leaves a stable name. (A name that ends in
/// whitespace, or that still holds a bracket pair after an unbalanced
/// walk, is re-split and is excluded here.)
pub proof fn lemma_split_idempotent(raw: Seq<char>)
    requires
        stable_title(split_spec(raw).0),
    ensures
        split_spec(split_spec(raw).0) == (split_spec(raw).0, None::<Seq<char>>),
{
    lemma_split_fixed_point(split_spec(raw).0);
}

} // verus!
