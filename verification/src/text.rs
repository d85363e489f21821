//! Text as the services read it: what counts as white space, and whether a
//! text holds anything else.

use vstd::prelude::*;

verus! {

/// `c` is white space: a character with the Unicode property `White_Space`.
pub open spec fn is_space(c: char) -> bool {
    let u = c as u32;
    ||| 0x09 <= u <= 0x0d
    ||| u == 0x20
    ||| u == 0x85
    ||| u == 0xa0
    ||| u == 0x1680
    ||| 0x2000 <= u <= 0x200a
    ||| u == 0x2028
    ||| u == 0x2029
    ||| u == 0x202f
    ||| u == 0x205f
    ||| u == 0x3000
}

/// `text` holds white space only, or nothing.
pub open spec fn is_blank(text: Seq<char>) -> bool {
    forall|i: int| 0 <= i < text.len() ==> is_space(#[trigger] text[i])
}

/// Tells whether `c` is white space.
pub fn char_is_space(c: char) -> (r: bool)
    ensures
        r == is_space(c),
{
    let u: u32 = c as u32;
    (0x09 <= u && u <= 0x0d) || u == 0x20 || u == 0x85 || u == 0xa0 || u == 0x1680 || (0x2000 <= u
        && u <= 0x200a) || u == 0x2028 || u == 0x2029 || u == 0x202f || u == 0x205f || u == 0x3000
}

/// Tells whether `text` holds white space only, or nothing.
pub fn text_is_blank(text: &str) -> (r: bool)
    ensures
        r == is_blank(text@),
{
    let n = text.unicode_len();
    let mut i: usize = 0;
    while i < n
        invariant
            n == text@.len(),
            i <= n,
            forall|j: int| 0 <= j < i ==> is_space(#[trigger] text@[j]),
        decreases n - i,
    {
        if !char_is_space(text.get_char(i)) {
            return false;
        }
        i += 1;
    }
    true
}

/// `String::push`: appends one character to the end of the text.
#[verifier::external_body]
pub(crate) fn push_char(text: &mut String, c: char)
    ensures
        final(text)@ == old(text)@.push(c),
{
    text.push(c);
}

/// The character of a decimal digit.
pub open spec fn digit_char(d: int) -> char {
    (0x30 + d) as u8 as char
}

/// The decimal form of a number, without leading zeros.
pub open spec fn decimal(n: nat) -> Seq<char>
    decreases n,
{
    if n < 10 {
        seq![digit_char(n as int)]
    } else {
        decimal(n / 10).push(digit_char((n % 10) as int))
    }
}

/// Appends the decimal form of `n` to the text.
pub fn push_decimal(text: &mut String, n: u64)
    ensures
        final(text)@ == old(text)@ + decimal(n as nat),
    decreases n,
{
    if n >= 10 {
        push_decimal(text, n / 10);
    }
    let d: u8 = (n % 10) as u8;
    push_char(text, (0x30u8 + d) as char);
    proof {
        if n < 10 {
            assert(text@ =~= old(text)@ + decimal(n as nat));
        } else {
            assert(text@ =~= old(text)@ + decimal(n as nat));
        }
    }
}

/// The text `label` followed by the decimal form of `n`.
pub fn numbered(label: &str, n: u64) -> (text: String)
    ensures
        text@ == label@ + decimal(n as nat),
{
    let mut text = String::from_str(label);
    push_decimal(&mut text, n);
    text
}

/// The text with `c` put in at the position `at`, at the end where `at`
/// lies beyond it.
pub fn with_char_at(text: &str, at: usize, c: char) -> (r: String)
    ensures
        r@ == text@.insert(if at <= text@.len() { at as int } else { text@.len() as int }, c),
{
    let n = text.unicode_len();
    let p = if at <= n {
        at
    } else {
        n
    };
    let mut r = String::from_str(text.substring_char(0, p));
    push_char(&mut r, c);
    r.append(text.substring_char(p, n));
    assert(r@ =~= text@.insert(p as int, c));
    r
}

/// The text without the characters from `from` up to `to`.
pub fn without_range(text: &str, from: usize, to: usize) -> (r: String)
    requires
        from <= to <= text@.len(),
    ensures
        r@ == text@.subrange(0, from as int) + text@.subrange(to as int, text@.len() as int),
{
    let n = text.unicode_len();
    let mut r = String::from_str(text.substring_char(0, from));
    r.append(text.substring_char(to, n));
    r
}

/// The number of white-space characters at the beginning of the text.
pub open spec fn leading_spaces(s: Seq<char>) -> int
    decreases s.len(),
{
    if s.len() == 0 || !is_space(s[0]) {
        0
    } else {
        1 + leading_spaces(s.skip(1))
    }
}

/// The number of white-space characters at the end of the text.
pub open spec fn trailing_spaces(s: Seq<char>) -> int
    decreases s.len(),
{
    if s.len() == 0 || !is_space(s.last()) {
        0
    } else {
        1 + trailing_spaces(s.drop_last())
    }
}

/// The text without the white space at its beginning and at its end.
pub open spec fn trimmed(s: Seq<char>) -> Seq<char> {
    let rest = s.skip(leading_spaces(s));
    rest.take(rest.len() - trailing_spaces(rest))
}

/// The text without the white space at its beginning and at its end.
pub fn trim(text: &str) -> (r: &str)
    ensures
        r@ == trimmed(text@),
{
    let n = text.unicode_len();
    let mut start: usize = 0;
    assert(text@.skip(0) =~= text@);
    while start < n && char_is_space(text.get_char(start))
        invariant
            n == text@.len(),
            start <= n,
            leading_spaces(text@) == start + leading_spaces(text@.skip(start as int)),
        decreases n - start,
    {
        proof {
            let rest = text@.skip(start as int);
            assert(rest[0] == text@[start as int]);
            assert(rest.skip(1) =~= text@.skip(start + 1));
        }
        start += 1;
    }
    proof {
        let rest = text@.skip(start as int);
        if start < n {
            assert(rest[0] == text@[start as int]);
        }
        assert(leading_spaces(rest) == 0);
    }
    let ghost rest = text@.skip(start as int);
    let mut end: usize = n;
    assert(rest.take(rest.len() as int) =~= rest);
    while end > start && char_is_space(text.get_char(end - 1))
        invariant
            n == text@.len(),
            start <= end <= n,
            rest == text@.skip(start as int),
            trailing_spaces(rest) == (n - end) + trailing_spaces(rest.take(end - start)),
        decreases end,
    {
        proof {
            let head = rest.take(end - start);
            assert(head.last() == text@[end - 1]);
            assert(head.drop_last() =~= rest.take(end - start - 1));
        }
        end -= 1;
    }
    proof {
        let head = rest.take(end - start);
        if end > start {
            assert(head.last() == text@[end - 1]);
        }
        assert(trailing_spaces(head) == 0);
        assert(text@.subrange(start as int, end as int) =~= rest.take(
            rest.len() - trailing_spaces(rest),
        ));
    }
    text.substring_char(start, end)
}

/// Appends the items to the text, `separator` between each two of them.
pub fn push_joined(text: &mut String, items: &Vec<String>, separator: &str)
    ensures
        final(text)@ == old(text)@ + joined(items@, separator@),
{
    let mut i: usize = 0;
    assert(items@.subrange(0, 0) =~= Seq::<String>::empty());
    assert(text@ =~= old(text)@ + joined(items@.subrange(0, 0), separator@));
    while i < items.len()
        invariant
            i <= items.len(),
            text@ == old(text)@ + joined(items@.subrange(0, i as int), separator@),
        decreases items.len() - i,
    {
        let ghost held = text@;
        proof {
            assert(items@.subrange(0, i + 1).drop_last() =~= items@.subrange(0, i as int));
            assert(items@.subrange(0, i + 1).last() == items@[i as int]);
        }
        if i > 0 {
            text.append(separator);
        }
        text.append(items[i].as_str());
        proof {
            let before = joined(items@.subrange(0, i as int), separator@);
            let after = joined(items@.subrange(0, i + 1), separator@);
            if i == 0 {
                assert(before =~= Seq::<char>::empty());
                assert(after =~= items@[0]@);
            } else {
                assert(after =~= before + separator@ + items@[i as int]@);
            }
            assert(text@ =~= old(text)@ + after);
        }
        i += 1;
    }
    assert(items@.subrange(0, i as int) =~= items@);
}

/// The items one after the other, `separator` between each two of them.
pub open spec fn joined(items: Seq<String>, separator: Seq<char>) -> Seq<char>
    decreases items.len(),
{
    if items.len() == 0 {
        Seq::empty()
    } else if items.len() == 1 {
        items[0]@
    } else {
        joined(items.drop_last(), separator) + separator + items.last()@
    }
}

} // verus!
