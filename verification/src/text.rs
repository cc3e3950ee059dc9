//! Wrapped-row geometry of the rendered text.
//!
//! A piece of text occupies one terminal row per embedded line, plus one
//! more row for every full multiple of the terminal width its display width
//! reaches.  The height functions here compute that row count exactly; the
//! redraw logic depends on it to move the cursor over its own prior output.

use vstd::prelude::*;

verus! {

/// The number of terminal columns a string occupies on screen.  Wide and
/// zero-width characters make this differ from the character count; the
/// exact value comes from unicode_width's tables and is left unnamed here.
pub uninterp spec fn display_width(s: Seq<char>) -> nat;

/// Relies on unicode_width::UnicodeWidthStr::width: the display width in
/// columns of a string, a function of its characters alone.
#[verifier::external_body]
pub(crate) fn text_width(s: &str) -> (r: usize)
    ensures
        r as nat == display_width(s@),
{
    unicode_width::UnicodeWidthStr::width(s)
}

/// The lines embedded in a string, as `str::lines` yields them: segments
/// split at `'\n'`, each stripped of one `'\r'` that sat just before the
/// `'\n'`, with no empty segment after a final line break.
pub open spec fn spec_lines(s: Seq<char>) -> Seq<Seq<char>>
    decreases s.len(),
{
    if s.len() == 0 {
        Seq::empty()
    } else if s[0] == '\n' {
        seq![Seq::<char>::empty()] + spec_lines(s.skip(1))
    } else if s.len() >= 2 && s[0] == '\r' && s[1] == '\n' {
        seq![Seq::<char>::empty()] + spec_lines(s.skip(2))
    } else if spec_lines(s.skip(1)).len() == 0 {
        seq![seq![s[0]]]
    } else {
        let rest = spec_lines(s.skip(1));
        seq![seq![s[0]] + rest[0]] + rest.skip(1)
    }
}

/// Relies on str::lines: splits at `'\n'`, drops one `'\r'` directly before
/// each `'\n'`, and yields no empty segment after a final line break.
#[verifier::external_body]
pub(crate) fn split_lines(s: &str) -> (r: Vec<String>)
    ensures
        r.deep_view() == spec_lines(s@),
{
    s.lines().map(|line| line.to_string()).collect()
}

/// The number of terminal rows one line occupies at the given width: at
/// least one, plus one per full multiple of the width its columns fill.
pub open spec fn spec_line_rows(line: Seq<char>, width: int) -> int {
    1 + display_width(line) as int / width
}

/// The total rows of a sequence of lines at the given width.
pub open spec fn spec_lines_rows(lines: Seq<Seq<char>>, width: int) -> int
    decreases lines.len(),
{
    if lines.len() == 0 {
        0
    } else {
        spec_line_rows(lines[0], width) + spec_lines_rows(lines.skip(1), width)
    }
}

/// The number of terminal rows a whole string occupies at the given width:
/// the sum, over each of its embedded lines, of one row plus one per full
/// width-multiple of that line's display width.  A string without
/// characters has no lines and occupies no rows.
pub open spec fn spec_str_height(s: Seq<char>, width: int) -> int {
    spec_lines_rows(spec_lines(s), width)
}

pub proof fn lemma_lines_rows_nonneg(lines: Seq<Seq<char>>, width: int)
    requires
        width >= 1,
    ensures
        spec_lines_rows(lines, width) >= lines.len(),
    decreases lines.len(),
{
    if lines.len() > 0 {
        lemma_lines_rows_nonneg(lines.skip(1), width);
    }
}

pub proof fn lemma_lines_rows_push(lines: Seq<Seq<char>>, x: Seq<char>, width: int)
    ensures
        spec_lines_rows(lines.push(x), width) == spec_lines_rows(lines, width) + spec_line_rows(
            x,
            width,
        ),
    decreases lines.len(),
{
    if lines.len() == 0 {
        assert(lines.push(x)[0] == x);
        assert(lines.push(x).skip(1) =~= Seq::<Seq<char>>::empty());
        assert(spec_lines_rows(Seq::<Seq<char>>::empty(), width) == 0);
        assert(lines =~= Seq::<Seq<char>>::empty());
        assert(spec_lines_rows(lines.push(x), width) == spec_line_rows(x, width));
    } else {
        assert(lines.push(x)[0] == lines[0]);
        assert(lines.push(x).skip(1) =~= lines.skip(1).push(x));
        lemma_lines_rows_push(lines.skip(1), x, width);
        assert(spec_lines_rows(lines.push(x), width) == spec_line_rows(lines[0], width)
            + spec_lines_rows(lines.skip(1).push(x), width));
    }
}

pub proof fn lemma_lines_rows_split(lines: Seq<Seq<char>>, i: int, width: int)
    requires
        0 <= i <= lines.len(),
    ensures
        spec_lines_rows(lines, width) == spec_lines_rows(lines.take(i), width)
            + spec_lines_rows(lines.skip(i), width),
    decreases i,
{
    if i == 0 {
        assert(lines.take(0) =~= Seq::empty());
        assert(lines.skip(0) =~= lines);
    } else {
        lemma_lines_rows_split(lines.skip(1), i - 1, width);
        assert(lines.take(i)[0] == lines[0]);
        assert(lines.take(i).skip(1) =~= lines.skip(1).take(i - 1));
        assert(lines.skip(i) =~= lines.skip(1).skip(i - 1));
    }
}

/// Sums the row counts of the given lines, or reports that the total
/// exceeds what a `u16` can carry.
fn sum_line_rows(lines: &Vec<String>, width: u16) -> (r: Option<u16>)
    requires
        width >= 1,
    ensures
        match r {
            Some(h) => h as int == spec_lines_rows(lines.deep_view(), width as int),
            None => spec_lines_rows(lines.deep_view(), width as int) > u16::MAX,
        },
{
    let ghost all = lines.deep_view();
    let mut acc: u16 = 0;
    let mut i: usize = 0;
    while i < lines.len()
        invariant
            width >= 1,
            i <= lines.len(),
            all == lines.deep_view(),
            acc as int == spec_lines_rows(all.take(i as int), width as int),
        decreases lines.len() - i,
    {
        proof {
            assert(all[i as int] == lines@[i as int]@);
            lemma_lines_rows_split(all, i as int, width as int);
            lemma_lines_rows_nonneg(all.skip(i as int + 1), width as int);
            assert(all.skip(i as int)[0] == all[i as int]);
            assert(all.skip(i as int).skip(1) =~= all.skip(i as int + 1));
        }
        let w = text_width(lines[i].as_str());
        let q = w / (width as usize);
        if q >= (u16::MAX - acc) as usize {
            return None;
        }
        acc = acc + 1 + (q as u16);
        i = i + 1;
        proof {
            assert(all.take(i as int) =~= all.take(i as int - 1).push(all[i as int - 1]));
            lemma_lines_rows_push(all.take(i as int - 1), all[i as int - 1], width as int);
        }
    }
    proof {
        assert(all.take(i as int) =~= all);
    }
    Some(acc)
}

/// The number of terminal rows `s` occupies at the given terminal width:
/// each embedded line contributes one row plus one per full width-multiple
/// of its display width.
pub fn str_height(s: &str, terminal_width: u16) -> (r: u16)
    requires
        terminal_width >= 1,
        spec_str_height(s@, terminal_width as int) <= u16::MAX,
    ensures
        r as int == spec_str_height(s@, terminal_width as int),
{
    let lines = split_lines(s);
    match sum_line_rows(&lines, terminal_width) {
        Some(h) => h,
        None => {
            proof {
                assert(false);
            }
            0
        },
    }
}

/// The row count of `s` at the given terminal width, or `None` when that
/// count does not fit in a `u16`.
pub fn str_height_checked(s: &str, terminal_width: u16) -> (r: Option<u16>)
    requires
        terminal_width >= 1,
    ensures
        match r {
            Some(h) => h as int == spec_str_height(s@, terminal_width as int),
            None => spec_str_height(s@, terminal_width as int) > u16::MAX,
        },
{
    let lines = split_lines(s);
    // The checked sum establishes the bound `str_height` requires before
    // the call is made.
    match sum_line_rows(&lines, terminal_width) {
        Some(_) => Some(str_height(s, terminal_width)),
        None => None,
    }
}

/// Whether two string slices hold the same characters.
pub fn str_eq(a: &str, b: &str) -> (r: bool)
    ensures
        r == (a@ == b@),
{
    let sa = a.to_owned();
    let sb = b.to_owned();
    sa == sb
}

/// Whether `p` is a prefix of `s`.
pub open spec fn spec_starts_with(s: Seq<char>, p: Seq<char>) -> bool {
    p.len() <= s.len() && s.subrange(0, p.len() as int) == p
}

/// The characters of `s` after its prefix `p`.
pub fn str_after_prefix(s: &str, p: &str) -> (r: String)
    requires
        spec_starts_with(s@, p@),
    ensures
        r@ == s@.skip(p@.len() as int),
{
    let n = p.unicode_len();
    let m = s.unicode_len();
    let tail = s.substring_char(n, m);
    proof {
        assert(s@.subrange(n as int, m as int) =~= s@.skip(p@.len() as int));
    }
    tail.to_owned()
}

/// Whether the string slice `s` begins with the characters of `p`.
pub fn str_starts_with(s: &str, p: &str) -> (r: bool)
    ensures
        r == spec_starts_with(s@, p@),
{
    let n = p.unicode_len();
    let m = s.unicode_len();
    if n > m {
        return false;
    }
    let head = s.substring_char(0, n);
    str_eq(head, p)
}

} // verus!
