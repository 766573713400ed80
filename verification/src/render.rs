//! The pure computations of the dump loop: the page addresses, the chapter
//! range bound, the rendered output fragments, and the default output file
//! name.

use vstd::prelude::*;
use vstd::string::StringExecFns;

use crate::html::Line;
use crate::text::last_pos;

verus! {

/// Address of a work's index page.
pub fn work_url(novel: &str) -> (r: String)
    ensures
        r@ == "https://kakuyomu.jp/works/"@ + novel@,
{
    let mut s = String::from_str("https://kakuyomu.jp/works/");
    s.append(novel);
    s
}

/// Address of one chapter page under a work's index page address.
pub fn episode_url(work: &str, chapter: &str) -> (r: String)
    ensures
        r@ == work@ + "/episodes/"@ + chapter@,
{
    let mut s = String::from_str(work);
    s.append("/episodes/");
    s.append(chapter);
    s
}

/// The last chapter to dump: the requested bound when it lies within the
/// chapter count, the count itself when no bound was requested, `None`
/// when the bound asks for more chapters than exist.
pub fn effective_max(to: Option<usize>, count: usize) -> (r: Option<usize>)
    ensures
        match to {
            Some(m) => if m > count {
                r is None
            } else {
                r == Some(m)
            },
            None => r == Some(count),
        },
{
    match to {
        Some(m) => if m > count {
            None
        } else {
            Some(m)
        },
        None => Some(count),
    }
}

/// One content line as it is written out: a break marker becomes a markup
/// line break, a paragraph keeps its markup and a blank line follows.
pub fn render_line(line: &Line) -> (r: String)
    ensures
        match line {
            Line::Break => r@ == "<br/>\n"@,
            Line::Paragraph(m) => r@ == m@ + "\n\n"@,
        },
{
    match line {
        Line::Break => String::from_str("<br/>\n"),
        Line::Paragraph(m) => {
            let mut s = String::from_str(m.as_str());
            s.append("\n\n");
            s
        },
    }
}

/// The heading written once, before any chapter: the title, a rule, and
/// the original address.
pub fn render_novel_header(title: &str, url: &str) -> (r: String)
    ensures
        r@ == title@ + "\n===================\nOriginal: "@ + url@ + "\n"@,
{
    let mut s = String::from_str(title);
    s.append("\n===================\nOriginal: ");
    s.append(url);
    s.append("\n");
    s
}

/// The decimal digit characters, low to high.
pub open spec fn dec_digit_char(d: nat) -> char {
    if d == 0 {
        '0'
    } else if d == 1 {
        '1'
    } else if d == 2 {
        '2'
    } else if d == 3 {
        '3'
    } else if d == 4 {
        '4'
    } else if d == 5 {
        '5'
    } else if d == 6 {
        '6'
    } else if d == 7 {
        '7'
    } else if d == 8 {
        '8'
    } else {
        '9'
    }
}

/// The decimal numeral of `n`, without sign or padding.
pub open spec fn dec_str(n: nat) -> Seq<char>
    decreases n,
{
    if n < 10 {
        seq![dec_digit_char(n)]
    } else {
        dec_str(n / 10).push(dec_digit_char(n % 10))
    }
}

fn digit_str(d: usize) -> (r: &'static str)
    requires
        d < 10,
    ensures
        r@ == seq![dec_digit_char(d as nat)],
{
    proof {
        reveal_strlit("0");
        reveal_strlit("1");
        reveal_strlit("2");
        reveal_strlit("3");
        reveal_strlit("4");
        reveal_strlit("5");
        reveal_strlit("6");
        reveal_strlit("7");
        reveal_strlit("8");
        reveal_strlit("9");
    }
    let r = match d {
        0 => "0",
        1 => "1",
        2 => "2",
        3 => "3",
        4 => "4",
        5 => "5",
        6 => "6",
        7 => "7",
        8 => "8",
        _ => "9",
    };
    proof {
        assert(r@ =~= seq![dec_digit_char(d as nat)]);
    }
    r
}

/// The decimal numeral of `n`, as [`dec_str`] states.
pub fn usize_to_string(n: usize) -> (r: String)
    ensures
        r@ == dec_str(n as nat),
    decreases n,
{
    if n < 10 {
        String::from_str(digit_str(n))
    } else {
        let mut s = usize_to_string(n / 10);
        s.append(digit_str(n % 10));
        proof {
            assert(dec_str((n / 10) as nat) + seq![dec_digit_char((n % 10) as nat)] =~= dec_str(
                (n / 10) as nat,
            ).push(dec_digit_char((n % 10) as nat)));
        }
        s
    }
}

/// The heading written before one chapter: the chapter's own title when it
/// has one, else a numbered fallback.
pub fn render_chapter_header(title: Option<&str>, number: usize) -> (r: String)
    ensures
        match title {
            Some(t) => r@ == "\n"@ + t@ + "\n-------------------\n"@,
            None => r@ == "\nChapter "@ + dec_str(number as nat) + "\n-------------------\n"@,
        },
{
    match title {
        Some(t) => {
            let mut s = String::from_str("\n");
            s.append(t);
            s.append("\n-------------------\n");
            s
        },
        None => {
            let mut s = String::from_str("\nChapter ");
            let num = usize_to_string(number);
            s.append(num.as_str());
            s.append("\n-------------------\n");
            s
        },
    }
}

proof fn lemma_dec_str_digits(n: nat)
    ensures
        dec_str(n).len() >= 1,
        crate::cli::all_digits(dec_str(n)),
    decreases n,
{
    if n < 10 {
        assert(crate::cli::is_dec_digit(dec_digit_char(n)));
    } else {
        lemma_dec_str_digits(n / 10);
        let s = dec_str(n / 10);
        let c = dec_digit_char(n % 10);
        assert(crate::cli::is_dec_digit(c));
        assert forall|i: int| 0 <= i < s.push(c).len() implies crate::cli::is_dec_digit(
            #[trigger] s.push(c)[i],
        ) by {
            if i < s.len() {
                assert(s.push(c)[i] == s[i]);
            } else {
                assert(s.push(c)[i] == c);
            }
        }
    }
}

proof fn lemma_dec_val_of_dec_str(n: nat)
    ensures
        crate::cli::dec_val(dec_str(n)) == n,
    decreases n,
{
    if n < 10 {
        let s = seq![dec_digit_char(n)];
        assert(s.drop_last() =~= Seq::<char>::empty());
        assert(crate::cli::dec_val(Seq::<char>::empty()) == 0);
        assert(s.last() == dec_digit_char(n));
        assert(crate::cli::digit_val(dec_digit_char(n)) == n);
        assert(crate::cli::dec_val(s) == n);
    } else {
        lemma_dec_val_of_dec_str(n / 10);
        let s = dec_str(n / 10);
        let c = dec_digit_char(n % 10);
        assert(s.push(c).drop_last() =~= s);
        assert(s.push(c).last() == c);
        assert(crate::cli::digit_val(c) == n % 10);
        assert(s.push(c).len() > 0);
        assert(crate::cli::dec_val(s.push(c)) == crate::cli::dec_val(s) * 10
            + crate::cli::digit_val(c));
        assert(crate::cli::dec_val(dec_str(n)) == n);
    }
}

/// The decimal writer and the decimal reader agree: parsing the rendered
/// numeral of any machine integer yields that integer back.
pub proof fn lemma_decimal_round_trip(n: usize)
    ensures
        crate::cli::dec_parse(dec_str(n as nat)) == Some(n as nat),
{
    lemma_dec_str_digits(n as nat);
    lemma_dec_val_of_dec_str(n as nat);
    let s = dec_str(n as nat);
    assert(crate::cli::is_dec_digit(s[0]));
    assert(s[0] != '+');
}

/// The name under `dir` that the dump is written to: the title as file
/// stem, any extension-like tail of its last path component replaced by
/// the markup extension. A dot that starts the component is part of the
/// stem, as it is for hidden files.
pub open spec fn file_path_spec(dir: Seq<char>, name: Seq<char>) -> Seq<char> {
    let start = match last_pos(name, '/') {
        Some(sl) => sl + 1,
        None => 0int,
    };
    let stem = match last_pos(name.skip(start), '.') {
        Some(p) => if p > 0 {
            name.take(start + p)
        } else {
            name
        },
        None => name,
    };
    dir + "/"@ + stem + ".md"@
}

/// Build the output file path, as [`file_path_spec`] states.
pub fn construct_file_path(dir: &str, name: &str) -> (r: String)
    ensures
        r@ == file_path_spec(dir@, name@),
{
    let n = name.unicode_len();
    let sl = crate::text::find_last(name, '/', n);
    proof {
        assert(name@.take(n as int) =~= name@);
        crate::text::lemma_last_pos_bounds(name@, '/');
    }
    let start: usize = match sl {
        Some(sl) => sl + 1,
        None => 0,
    };
    let comp = name.substring_char(start, n);
    proof {
        assert(comp@ =~= name@.skip(start as int));
        assert(comp@.take((n - start) as int) =~= comp@);
        crate::text::lemma_last_pos_bounds(comp@, '.');
    }
    let q = crate::text::find_last(comp, '.', n - start);
    let stem: &str = match q {
        Some(p) => if p > 0 {
            name.substring_char(0, start + p)
        } else {
            name
        },
        None => name,
    };
    let mut s = String::from_str(dir);
    s.append("/");
    s.append(stem);
    s.append(".md");
    s
}

} // verus!
