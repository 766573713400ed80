//! Character-level helpers over `&str`: trimming, searching, counting and
//! range comparison. All results are stated over the `Seq<char>` view.

use vstd::prelude::*;

verus! {

/// Characters treated as trimmable surrounding whitespace: the Unicode
/// White_Space set, as char::is_whitespace documents it.
pub open spec fn is_space_char(c: char) -> bool {
    let u = c as u32;
    u == 0x9 || u == 0xA || u == 0xB || u == 0xC || u == 0xD || u == 0x20 || u == 0x85 || u == 0xA0
        || u == 0x1680 || (0x2000 <= u && u <= 0x200A) || u == 0x2028 || u == 0x2029 || u == 0x202F
        || u == 0x205F || u == 0x3000
}

/// `s` with leading whitespace removed.
pub open spec fn trim_start_spec(s: Seq<char>) -> Seq<char>
    decreases s.len(),
{
    if s.len() > 0 && is_space_char(s[0]) {
        trim_start_spec(s.drop_first())
    } else {
        s
    }
}

/// `s` with trailing whitespace removed.
pub open spec fn trim_end_spec(s: Seq<char>) -> Seq<char>
    decreases s.len(),
{
    if s.len() > 0 && is_space_char(s.last()) {
        trim_end_spec(s.drop_last())
    } else {
        s
    }
}

/// `s` with surrounding whitespace removed.
pub open spec fn trim_spec(s: Seq<char>) -> Seq<char> {
    trim_end_spec(trim_start_spec(s))
}

fn is_space(c: char) -> (r: bool)
    ensures
        r == is_space_char(c),
{
    let u = c as u32;
    u == 0x9 || u == 0xA || u == 0xB || u == 0xC || u == 0xD || u == 0x20 || u == 0x85 || u == 0xA0
        || u == 0x1680 || (0x2000 <= u && u <= 0x200A) || u == 0x2028 || u == 0x2029 || u == 0x202F
        || u == 0x205F || u == 0x3000
}

fn trim_start_str(s: &str) -> (r: &str)
    ensures
        r@ == trim_start_spec(s@),
    decreases s@.len(),
{
    let n = s.unicode_len();
    if n > 0 && is_space(s.get_char(0)) {
        let rest = s.substring_char(1, n);
        proof {
            assert(rest@ =~= s@.drop_first());
        }
        trim_start_str(rest)
    } else {
        s
    }
}

fn trim_end_str(s: &str) -> (r: &str)
    ensures
        r@ == trim_end_spec(s@),
    decreases s@.len(),
{
    let n = s.unicode_len();
    if n > 0 && is_space(s.get_char(n - 1)) {
        let rest = s.substring_char(0, n - 1);
        proof {
            assert(rest@ =~= s@.drop_last());
        }
        trim_end_str(rest)
    } else {
        s
    }
}

/// `s` with surrounding whitespace removed, as [`trim_spec`] states.
pub fn trim_str(s: &str) -> (r: &str)
    ensures
        r@ == trim_spec(s@),
{
    trim_end_str(trim_start_str(s))
}

/// Position of the last occurrence of `c` in `s`, if any.
pub open spec fn last_pos(s: Seq<char>, c: char) -> Option<int>
    decreases s.len(),
{
    if s.len() == 0 {
        None
    } else if s.last() == c {
        Some(s.len() - 1)
    } else {
        last_pos(s.drop_last(), c)
    }
}

pub proof fn lemma_last_pos_bounds(s: Seq<char>, c: char)
    ensures
        match last_pos(s, c) {
            Some(i) => 0 <= i < s.len() && s[i] == c,
            None => true,
        },
    decreases s.len(),
{
    if s.len() > 0 && s.last() != c {
        lemma_last_pos_bounds(s.drop_last(), c);
    }
}

/// `last_pos` is `None` exactly when `c` does not occur in `s`.
pub proof fn lemma_last_pos_none(s: Seq<char>, c: char)
    ensures
        last_pos(s, c) is None <==> !s.contains(c),
    decreases s.len(),
{
    if s.len() > 0 {
        if s.last() == c {
            assert(s.contains(c)) by {
                assert(s[s.len() - 1] == c);
            }
        } else {
            lemma_last_pos_none(s.drop_last(), c);
            assert(s.contains(c) <==> s.drop_last().contains(c)) by {
                if s.contains(c) {
                    let i = choose|i: int| 0 <= i < s.len() && s[i] == c;
                    assert(s.drop_last()[i] == c);
                }
                if s.drop_last().contains(c) {
                    let i = choose|i: int|
                        0 <= i < s.drop_last().len() && s.drop_last()[i] == c;
                    assert(s[i] == c);
                }
            }
        }
    }
}

/// Last occurrence of `c` within `s[..hi]`, if any.
pub fn find_last(s: &str, c: char, hi: usize) -> (r: Option<usize>)
    requires
        hi <= s@.len(),
    ensures
        match r {
            Some(i) => last_pos(s@.take(hi as int), c) == Some(i as int),
            None => last_pos(s@.take(hi as int), c) is None,
        },
    decreases hi,
{
    if hi == 0 {
        None
    } else if s.get_char(hi - 1) == c {
        Some(hi - 1)
    } else {
        proof {
            assert(s@.take(hi as int).drop_last() =~= s@.take(hi - 1));
        }
        find_last(s, c, hi - 1)
    }
}

/// Number of occurrences of `c` in `s`.
pub open spec fn count_char(s: Seq<char>, c: char) -> nat
    decreases s.len(),
{
    if s.len() == 0 {
        0
    } else {
        count_char(s.drop_last(), c) + (if s.last() == c {
            1nat
        } else {
            0nat
        })
    }
}

pub proof fn lemma_count_le_len(s: Seq<char>, c: char)
    ensures
        count_char(s, c) <= s.len(),
    decreases s.len(),
{
    if s.len() > 0 {
        lemma_count_le_len(s.drop_last(), c);
    }
}

/// Number of occurrences of `c` within `s[lo..hi]`.
pub fn count_in_range(s: &str, c: char, lo: usize, hi: usize) -> (r: usize)
    requires
        lo <= hi <= s@.len(),
    ensures
        r == count_char(s@.subrange(lo as int, hi as int), c),
    decreases hi - lo,
{
    if hi == lo {
        0
    } else {
        let n = count_in_range(s, c, lo, hi - 1);
        proof {
            assert(s@.subrange(lo as int, hi as int).drop_last() =~= s@.subrange(
                lo as int,
                hi - 1,
            ));
            lemma_count_le_len(s@.subrange(lo as int, hi - 1), c);
        }
        if s.get_char(hi - 1) == c {
            n + 1
        } else {
            n
        }
    }
}

/// Number of occurrences of `c` within `s[..hi]`.
pub fn count_in_prefix(s: &str, c: char, hi: usize) -> (r: usize)
    requires
        hi <= s@.len(),
    ensures
        r == count_char(s@.take(hi as int), c),
{
    count_in_range(s, c, 0, hi)
}

fn range_eq_from(s: &str, lo: usize, hi: usize, t: &str, i: usize) -> (r: bool)
    requires
        lo <= hi <= s@.len(),
        hi - lo == t@.len(),
        i <= t@.len(),
    ensures
        r == (s@.subrange(lo + i, hi as int) == t@.skip(i as int)),
    decreases t@.len() - i,
{
    let tn = t.unicode_len();
    if i == tn {
        proof {
            assert(s@.subrange(lo + i, hi as int) =~= t@.skip(i as int));
        }
        true
    } else if s.get_char(lo + i) == t.get_char(i) {
        let r = range_eq_from(s, lo, hi, t, i + 1);
        proof {
            if r {
                assert forall|k: int| 0 <= k < hi - lo - i implies s@.subrange(lo + i, hi as int)[k]
                    == t@.skip(i as int)[k] by {
                    if k > 0 {
                        assert(s@.subrange(lo + i + 1, hi as int)[k - 1] == t@.skip(i + 1)[k - 1]);
                    }
                }
                assert(s@.subrange(lo + i, hi as int) =~= t@.skip(i as int));
            } else {
                assert(s@.subrange(lo + i, hi as int) != t@.skip(i as int)) by {
                    if s@.subrange(lo + i, hi as int) == t@.skip(i as int) {
                        assert forall|k: int| 0 <= k < hi - lo - i - 1 implies #[trigger] s@
                            .subrange(lo + i + 1, hi as int)[k] == t@.skip(i + 1)[k] by {
                            assert(s@.subrange(lo + i, hi as int)[k + 1] == t@.skip(i as int)[k
                                + 1]);
                        }
                        assert(s@.subrange(lo + i + 1, hi as int) =~= t@.skip(i + 1));
                    }
                }
            }
        }
        r
    } else {
        proof {
            assert(s@.subrange(lo + i, hi as int)[0] == s@[lo + i]);
            assert(t@.skip(i as int)[0] == t@[i as int]);
        }
        false
    }
}

/// Whether `s[lo..hi]` equals `t`, character for character.
pub fn str_range_eq(s: &str, lo: usize, hi: usize, t: &str) -> (r: bool)
    requires
        lo <= hi <= s@.len(),
    ensures
        r == (s@.subrange(lo as int, hi as int) == t@),
{
    let tn = t.unicode_len();
    if hi - lo != tn {
        proof {
            assert(s@.subrange(lo as int, hi as int).len() == hi - lo);
        }
        false
    } else {
        let r = range_eq_from(s, lo, hi, t, 0);
        proof {
            assert(t@.skip(0) =~= t@);
        }
        r
    }
}

/// Whether two strings hold the same characters.
pub fn str_eq(a: &str, b: &str) -> (r: bool)
    ensures
        r == (a@ == b@),
{
    let n = a.unicode_len();
    let r = str_range_eq(a, 0, n, b);
    proof {
        assert(a@.subrange(0, n as int) =~= a@);
    }
    r
}

} // verus!
