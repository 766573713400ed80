//! Invocation parameters, and the decisions of the interactive prompt
//! flow that collects them.
//!
//! The prompt loop itself reads and writes the terminal and stays outside
//! the library; each answer it collects is judged here: the novel id must
//! be non-empty, the first chapter is a positive decimal number defaulting
//! to one, the last chapter — when given — must be a decimal number
//! greater than the first.

use vstd::prelude::*;

verus! {

/// The parameters of one run: the chapter range to dump, the output file,
/// and the id of the novel.
pub struct Cli {
    /// First chapter to dump, starting at one.
    pub from: usize,
    /// Last chapter to dump; `None` means all of them.
    pub to: Option<usize>,
    /// Output file name; `None` means a name derived from the title.
    pub out: Option<String>,
    /// Id of the novel to dump.
    pub novel: String,
}

impl Cli {
    /// Well-formed parameters: chapters count from one.
    pub open spec fn wf(&self) -> bool {
        self.from >= 1
    }
}

/// The first chapter to dump when none is given.
pub fn default_from_value() -> (r: usize)
    ensures
        r == 1,
{
    1
}

/// A decimal digit.
pub open spec fn is_dec_digit(c: char) -> bool {
    '0' as u32 <= c as u32 && c as u32 <= '9' as u32
}

/// The value of a decimal digit.
pub open spec fn digit_val(c: char) -> nat {
    (c as u32 - '0' as u32) as nat
}

/// Whether every character of `s` is a decimal digit.
pub open spec fn all_digits(s: Seq<char>) -> bool {
    forall|i: int| 0 <= i < s.len() ==> is_dec_digit(s[i])
}

/// The value of an unsigned decimal numeral.
pub open spec fn dec_val(s: Seq<char>) -> nat
    decreases s.len(),
{
    if s.len() == 0 {
        0
    } else {
        dec_val(s.drop_last()) * 10 + digit_val(s.last())
    }
}

/// What parsing an unsigned decimal accepts: an optional leading plus
/// sign, then at least one digit, valuing no more than the machine limit.
pub open spec fn dec_parse(s: Seq<char>) -> Option<nat> {
    let body = if s.len() > 0 && s[0] == '+' {
        s.drop_first()
    } else {
        s
    };
    if body.len() > 0 && all_digits(body) && dec_val(body) <= usize::MAX {
        Some(dec_val(body))
    } else {
        None
    }
}

proof fn lemma_dec_val_prefix(s: Seq<char>, k: int)
    requires
        0 <= k <= s.len(),
        all_digits(s),
    ensures
        dec_val(s) >= dec_val(s.take(k)),
    decreases s.len() - k,
{
    if k < s.len() {
        assert(s.take(k + 1).drop_last() =~= s.take(k));
        assert(dec_val(s.take(k + 1)) == dec_val(s.take(k)) * 10 + digit_val(s.take(k + 1).last()));
        lemma_dec_val_prefix(s, k + 1);
        assert(s.take(s.len() as int) =~= s);
    } else {
        assert(s.take(k) =~= s);
    }
}

fn is_dec_digit_exec(c: char) -> (r: bool)
    ensures
        r == is_dec_digit(c),
{
    let u = c as u32;
    '0' as u32 <= u && u <= '9' as u32
}

/// Parse an unsigned decimal numeral, as [`dec_parse`] states: `None` on
/// an empty numeral, a non-digit, or a value over the machine limit.
#[verifier::rlimit(50)]
pub fn parse_usize_dec(s: &str) -> (r: Option<usize>)
    ensures
        match r {
            Some(v) => dec_parse(s@) == Some(v as nat),
            None => dec_parse(s@) is None,
        },
{
    let n = s.unicode_len();
    let start: usize = if n > 0 && s.get_char(0) == '+' {
        1
    } else {
        0
    };
    let ghost body = if s@.len() > 0 && s@[0] == '+' {
        s@.drop_first()
    } else {
        s@
    };
    proof {
        assert(body =~= s@.skip(start as int));
    }
    if start >= n {
        return None;
    }
    let mut acc: usize = 0;
    let mut i: usize = start;
    while i < n
        invariant
            start <= i <= n,
            n == s@.len(),
            start == 1 ==> s@.len() > 0 && s@[0] == '+',
            start == 0 ==> !(s@.len() > 0 && s@[0] == '+'),
            body == s@.skip(start as int),
            body == (if s@.len() > 0 && s@[0] == '+' {
                s@.drop_first()
            } else {
                s@
            }),
            all_digits(body.take(i - start)),
            acc == dec_val(body.take(i - start)),
        decreases n - i,
    {
        let c = s.get_char(i);
        proof {
            assert(body[i - start] == s@[i as int]);
        }
        if !is_dec_digit_exec(c) {
            proof {
                assert(!all_digits(body)) by {
                    assert(0 <= i - start < body.len());
                    assert(!is_dec_digit(body[i - start]));
                }
                assert(dec_parse(s@) is None);
            }
            return None;
        }
        let d = (c as u32 - '0' as u32) as usize;
        if acc > usize::MAX / 10 || (acc == usize::MAX / 10 && d > usize::MAX % 10) {
            proof {
                if all_digits(body) && dec_val(body) <= usize::MAX {
                    assert(body.take(i - start + 1).drop_last() =~= body.take(i - start));
                    assert(digit_val(c) == d as nat);
                    assert(dec_val(body.take(i - start + 1)) == acc * 10 + d);
                    assert(usize::MAX == (usize::MAX / 10) * 10 + usize::MAX % 10);
                    assert(acc * 10 + d > usize::MAX);
                    lemma_dec_val_prefix(body, i - start + 1);
                    assert(false);
                }
                assert(dec_parse(s@) is None);
            }
            return None;
        }
        proof {
            assert(acc * 10 + d <= usize::MAX) by {
                assert(usize::MAX == (usize::MAX / 10) * 10 + usize::MAX % 10);
            }
            assert(body.take(i - start + 1).drop_last() =~= body.take(i - start));
        }
        acc = acc * 10 + d;
        i = i + 1;
    }
    proof {
        assert(body.take(n - start) =~= body);
    }
    Some(acc)
}

/// Judge a novel-id answer: any non-empty line is taken as the id.
pub fn accept_novel(line: &str) -> (r: Option<String>)
    ensures
        match r {
            Some(id) => line@.len() > 0 && id@ == line@,
            None => line@.len() == 0,
        },
{
    if line.is_empty() {
        None
    } else {
        Some(line.to_owned())
    }
}

/// Why a first-chapter answer was rejected.
#[derive(Debug, PartialEq, Eq)]
pub enum FromError {
    /// The line is not an unsigned decimal number.
    NotANumber,
    /// Chapters count from one.
    Zero,
}

/// Judge a first-chapter answer: an empty line takes the default, zero is
/// rejected, anything unparsable is rejected.
pub fn accept_from(line: &str) -> (r: Result<usize, FromError>)
    ensures
        match r {
            Ok(v) => (line@.len() == 0 && v == 1) || (dec_parse(line@) == Some(v as nat) && v
                >= 1),
            Err(e) => line@.len() > 0 && match e {
                FromError::NotANumber => dec_parse(line@) is None,
                FromError::Zero => dec_parse(line@) == Some(0nat),
            },
        },
{
    if line.is_empty() {
        return Ok(default_from_value());
    }
    match parse_usize_dec(line) {
        None => Err(FromError::NotANumber),
        Some(v) => if v == 0 {
            Err(FromError::Zero)
        } else {
            Ok(v)
        },
    }
}

/// Why a last-chapter answer was rejected.
#[derive(Debug, PartialEq, Eq)]
pub enum ToError {
    /// The line is not an unsigned decimal number.
    NotANumber,
    /// The last chapter must lie after the first.
    NotGreater,
}

/// Judge a last-chapter answer: an empty line means no upper bound; a
/// number no greater than `from` is rejected.
pub fn accept_to(line: &str, from: usize) -> (r: Result<Option<usize>, ToError>)
    ensures
        match r {
            Ok(v) => (line@.len() == 0 && v is None) || (v matches Some(t) && dec_parse(line@)
                == Some(t as nat) && t > from),
            Err(e) => line@.len() > 0 && match e {
                ToError::NotANumber => dec_parse(line@) is None,
                ToError::NotGreater => dec_parse(line@) matches Some(t) && t <= from,
            },
        },
{
    if line.is_empty() {
        return Ok(None);
    }
    match parse_usize_dec(line) {
        None => Err(ToError::NotANumber),
        Some(v) => if v > from {
            Ok(Some(v))
        } else {
            Err(ToError::NotGreater)
        },
    }
}

/// Judge an output-file answer: an empty line takes the default name.
pub fn accept_out(line: &str) -> (r: Option<String>)
    ensures
        match r {
            Some(name) => line@.len() > 0 && name@ == line@,
            None => line@.len() == 0,
        },
{
    if line.is_empty() {
        None
    } else {
        Some(line.to_owned())
    }
}

} // verus!
