//! A text as lines: where the lines of an input begin, how long they are,
//! on which line and column a position stands, and how pasted text is made
//! to fit.

use vstd::prelude::*;

verus! {

/// The first position from `from` on that holds a line feed, or the length
/// of the text where none does.
pub open spec fn find_newline(s: Seq<char>, from: int) -> int
    decreases s.len() - from,
{
    if from >= s.len() {
        s.len() as int
    } else if s[from] == '\n' {
        from
    } else {
        find_newline(s, from + 1)
    }
}

/// The position at which the line `k` begins: after the line feed that ends
/// the line before it, or the length of the text where there is no such line.
pub open spec fn start_of_line(s: Seq<char>, k: nat) -> int
    decreases k,
{
    if k == 0 {
        0
    } else {
        let end = find_newline(s, start_of_line(s, (k - 1) as nat));
        if end >= s.len() {
            s.len() as int
        } else {
            end + 1
        }
    }
}

/// The number of characters of the line `k`, without the line feed that ends
/// it and without a carriage return before that line feed; 0 where there is
/// no such line.
pub open spec fn length_of_line(s: Seq<char>, k: nat) -> int {
    let start = start_of_line(s, k);
    if start >= s.len() {
        0
    } else {
        let end = find_newline(s, start);
        if end < s.len() && end > start && s[end - 1] == '\r' {
            end - start - 1
        } else {
            end - start
        }
    }
}

/// The line and the column of the position `at`: the number of line feeds
/// before it, and the number of characters since the last of them.
pub open spec fn line_col(s: Seq<char>, at: int) -> (int, int)
    decreases at,
{
    if at <= 0 {
        (0, 0)
    } else {
        let (line, col) = line_col(s, at - 1);
        if s[at - 1] == '\n' {
            (line + 1, 0)
        } else {
            (line, col + 1)
        }
    }
}

/// The number of line feeds in the text.
pub open spec fn count_newlines(s: Seq<char>) -> int {
    line_col(s, s.len() as int).0
}

/// The number of lines of the text as a reader of lines counts them: a line
/// feed at the very end does not begin another line.
pub open spec fn count_lines(s: Seq<char>) -> int {
    if s.len() == 0 {
        0
    } else if s.last() == '\n' {
        count_newlines(s)
    } else {
        count_newlines(s) + 1
    }
}

/// The text with every line ending made a line feed: a carriage return and
/// the line feed after it become one line feed, a carriage return alone
/// becomes a line feed.
pub open spec fn normalized(s: Seq<char>) -> Seq<char>
    decreases s.len(),
{
    if s.len() == 0 {
        Seq::empty()
    } else if s[0] == '\r' && s.len() > 1 && s[1] == '\n' {
        seq!['\n'] + normalized(s.skip(2))
    } else if s[0] == '\r' {
        seq!['\n'] + normalized(s.skip(1))
    } else {
        seq![s[0]] + normalized(s.skip(1))
    }
}

/// The number of bytes that the character takes in UTF-8.
pub open spec fn utf8_width(c: char) -> int {
    let u = c as u32;
    if u < 0x80 {
        1
    } else if u < 0x800 {
        2
    } else if u < 0x10000 {
        3
    } else {
        4
    }
}

/// The number of bytes that the first `at` characters take in UTF-8.
pub open spec fn byte_offset(s: Seq<char>, at: int) -> int
    decreases at,
{
    if at <= 0 {
        0
    } else {
        byte_offset(s, at - 1) + utf8_width(s[at - 1])
    }
}

/// Where the search for a line feed ends.
pub proof fn lemma_find_newline(s: Seq<char>, from: int)
    requires
        0 <= from,
    ensures
        from <= find_newline(s, from) || find_newline(s, from) == s.len(),
        find_newline(s, from) <= s.len(),
        find_newline(s, from) < s.len() ==> s[find_newline(s, from)] == '\n',
        forall|i: int| from <= i < find_newline(s, from) ==> s[i] != '\n',
    decreases s.len() - from,
{
    if from < s.len() && s[from] != '\n' {
        lemma_find_newline(s, from + 1);
    }
}

/// A line begins and ends inside the text.
pub proof fn lemma_line_bounds(s: Seq<char>, k: nat)
    ensures
        0 <= start_of_line(s, k) <= s.len(),
        0 <= length_of_line(s, k) <= s.len() - start_of_line(s, k),
    decreases k,
{
    if k > 0 {
        lemma_line_bounds(s, (k - 1) as nat);
        lemma_find_newline(s, start_of_line(s, (k - 1) as nat));
    }
    lemma_find_newline(s, start_of_line(s, k));
}

/// The line and the column of a position lie before it.
pub proof fn lemma_line_col(s: Seq<char>, at: int)
    requires
        0 <= at,
    ensures
        0 <= line_col(s, at).0 <= at,
        0 <= line_col(s, at).1 <= at,
    decreases at,
{
    if at > 0 {
        lemma_line_col(s, at - 1);
    }
}

/// The number of bytes that `c` takes in UTF-8.
pub fn char_width(c: char) -> (w: usize)
    ensures
        w == utf8_width(c),
{
    let u: u32 = c as u32;
    if u < 0x80 {
        1
    } else if u < 0x800 {
        2
    } else if u < 0x10000 {
        3
    } else {
        4
    }
}

/// The first position from `from` on that holds a line feed, or the length
/// of the text.
pub fn next_newline(text: &str, from: usize) -> (r: usize)
    ensures
        r == find_newline(text@, from as int),
        r <= text@.len(),
{
    let n = text.unicode_len();
    let mut i: usize = from;
    proof {
        lemma_find_newline(text@, from as int);
    }
    while i < n
        invariant
            n == text@.len(),
            from <= i,
            find_newline(text@, i as int) == find_newline(text@, from as int),
        decreases n - i,
    {
        if text.get_char(i) == '\n' {
            return i;
        }
        i += 1;
    }
    n
}

/// The position at which the line `target_line` begins.
pub fn line_start_in(text: &str, target_line: usize) -> (r: usize)
    ensures
        r == start_of_line(text@, target_line as nat),
        r <= text@.len(),
{
    let n = text.unicode_len();
    let mut line: usize = 0;
    let mut at: usize = 0;
    while line < target_line
        invariant
            n == text@.len(),
            line <= target_line,
            at <= n,
            at == start_of_line(text@, line as nat),
        decreases target_line - line,
    {
        let end = next_newline(text, at);
        at = if end >= n {
            n
        } else {
            end + 1
        };
        line += 1;
    }
    at
}

/// The number of characters of the line `target_line`.
pub fn line_len_in(text: &str, target_line: usize) -> (r: usize)
    ensures
        r == length_of_line(text@, target_line as nat),
        r <= text@.len() - start_of_line(text@, target_line as nat),
{
    proof {
        lemma_line_bounds(text@, target_line as nat);
    }
    let n = text.unicode_len();
    let start = line_start_in(text, target_line);
    if start >= n {
        return 0;
    }
    let end = next_newline(text, start);
    proof {
        lemma_find_newline(text@, start as int);
    }
    if end < n && end > start && text.get_char(end - 1) == '\r' {
        end - start - 1
    } else {
        end - start
    }
}

/// The line and the column of the position `at`, which is taken as the end
/// of the text where it lies beyond it.
pub fn line_col_in(text: &str, at: usize) -> (r: (usize, usize))
    ensures
        r.0 == line_col(text@, if at <= text@.len() { at as int } else { text@.len() as int }).0,
        r.1 == line_col(text@, if at <= text@.len() { at as int } else { text@.len() as int }).1,
{
    let n = text.unicode_len();
    let mut line: usize = 0;
    let mut col: usize = 0;
    let mut i: usize = 0;
    while i < n && i < at
        invariant
            n == text@.len(),
            i <= n,
            i <= at,
            line <= i,
            col <= i,
            line == line_col(text@, i as int).0,
            col == line_col(text@, i as int).1,
        decreases n - i,
    {
        if text.get_char(i) == '\n' {
            line += 1;
            col = 0;
        } else {
            col += 1;
        }
        i += 1;
    }
    (line, col)
}

/// The number of line feeds in the text.
pub fn newlines_in(text: &str) -> (r: usize)
    ensures
        r == count_newlines(text@),
        r <= text@.len(),
{
    let n = text.unicode_len();
    proof {
        lemma_line_col(text@, n as int);
    }
    line_col_in(text, n).0
}

/// The number of lines of the text as a reader of lines counts them.
pub fn lines_in(text: &str) -> (r: usize)
    ensures
        r == count_lines(text@),
        r <= text@.len(),
{
    let n = text.unicode_len();
    if n == 0 {
        return 0;
    }
    let feeds = newlines_in(text);
    if text.get_char(n - 1) == '\n' {
        feeds
    } else {
        proof {
            // The last character is no line feed, so fewer line feeds than
            // characters stand in the text.
            lemma_line_col(text@, n - 1);
        }
        feeds + 1
    }
}

/// The number of bytes that the first `at` characters of the text take in
/// UTF-8; the byte length of the text where `at` lies beyond it.
pub fn byte_index_in(text: &str, at: usize) -> (r: usize)
    requires
        4 * text@.len() <= usize::MAX,
    ensures
        r == byte_offset(text@, if at <= text@.len() { at as int } else { text@.len() as int }),
{
    let n = text.unicode_len();
    let mut bytes: usize = 0;
    let mut i: usize = 0;
    while i < n && i < at
        invariant
            n == text@.len(),
            4 * n <= usize::MAX,
            i <= n,
            i <= at,
            bytes == byte_offset(text@, i as int),
            bytes <= 4 * i,
        decreases n - i,
    {
        bytes += char_width(text.get_char(i));
        i += 1;
    }
    bytes
}

} // verus!
