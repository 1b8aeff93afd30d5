//! Text: the characters of a string, white space at its ends, endings, and
//! justification in a field of fixed width.

use vstd::prelude::*;
use vstd::string::{StrSliceExecFns, StringExecFns};

verus! {

/// `String::push` appends one character.
pub assume_specification[ String::push ](s: &mut String, c: char)
    ensures
        final(s)@ == old(s)@.push(c),
;

/// The characters of `s`, in order.
pub fn chars_of(s: &str) -> (chars: Vec<char>)
    ensures
        chars@ == s@,
{
    let mut chars: Vec<char> = Vec::new();
    for c in it: s.chars()
        invariant
            chars@ == it.seq().take(it.index() as int),
    {
        chars.push(c);
    }
    chars
}

/// Whether `c` is white space: a character with the Unicode property
/// `White_Space`.
pub open spec fn is_white_space(c: char) -> bool {
    let n = c as int;
    ||| 0x09 <= n <= 0x0D
    ||| n == 0x20
    ||| n == 0x85
    ||| n == 0xA0
    ||| n == 0x1680
    ||| 0x2000 <= n <= 0x200A
    ||| n == 0x2028
    ||| n == 0x2029
    ||| n == 0x202F
    ||| n == 0x205F
    ||| n == 0x3000
}

/// Decides [`is_white_space`].
pub fn white_space(c: char) -> (yes: bool)
    ensures
        yes == is_white_space(c),
{
    let n: u32 = c as u32;
    (0x09 <= n && n <= 0x0D) || n == 0x20 || n == 0x85 || n == 0xA0 || n == 0x1680 || (0x2000 <= n
        && n <= 0x200A) || n == 0x2028 || n == 0x2029 || n == 0x202F || n == 0x205F || n
        == 0x3000
}

/// The first position at or after `from` that holds no white space, or the
/// length of `s` if there is none.
pub open spec fn skip_white_space(s: Seq<char>, from: int) -> int
    decreases s.len() - from,
{
    if 0 <= from < s.len() && is_white_space(s[from]) {
        skip_white_space(s, from + 1)
    } else {
        from
    }
}

/// The position after the last character before `to` that is no white
/// space, or 0 if there is none.
pub open spec fn skip_white_space_back(s: Seq<char>, to: int) -> int
    decreases to,
{
    if 0 < to <= s.len() && is_white_space(s[to - 1]) {
        skip_white_space_back(s, to - 1)
    } else {
        to
    }
}

/// `s` without the white space at its two ends.
pub open spec fn trimmed(s: Seq<char>) -> Seq<char> {
    let start = skip_white_space(s, 0);
    let end = skip_white_space_back(s, s.len() as int);
    if start < end {
        s.subrange(start, end)
    } else {
        Seq::empty()
    }
}

/// Removes the white space at the two ends of `s`.
pub fn trim(s: &str) -> (t: String)
    ensures
        t@ == trimmed(s@),
{
    let chars = chars_of(s);
    let mut start: usize = 0;
    while start < chars.len() && white_space(chars[start])
        invariant
            start <= chars.len(),
            skip_white_space(chars@, 0) == skip_white_space(chars@, start as int),
        decreases chars.len() - start,
    {
        start += 1;
    }
    let mut end: usize = chars.len();
    while end > 0 && white_space(chars[end - 1])
        invariant
            end <= chars.len(),
            skip_white_space_back(chars@, chars.len() as int) == skip_white_space_back(
                chars@,
                end as int,
            ),
        decreases end,
    {
        end -= 1;
    }
    let mut t = String::new();
    let mut i: usize = start;
    while i < end
        invariant
            end <= chars.len(),
            start <= i,
            start < end ==> i <= end,
            start < end ==> t@ == chars@.subrange(start as int, i as int),
            start >= end ==> t@ == Seq::<char>::empty(),
        decreases end - i,
    {
        t.push(chars[i]);
        i += 1;
    }
    t
}

/// `n` spaces.
pub open spec fn spaces(n: int) -> Seq<char> {
    Seq::new(
        if n > 0 {
            n as nat
        } else {
            0
        },
        |i: int| ' ',
    )
}

/// `s` at the left of a field of `width` characters: spaces follow it up to
/// the width. Text that is wider than the field stays as it is.
pub open spec fn left_justified(s: Seq<char>, width: int) -> Seq<char> {
    s + spaces(width - s.len())
}

/// `s` at the right of a field of `width` characters: spaces come before
/// it up to the width. Text that is wider than the field stays as it is.
pub open spec fn right_justified(s: Seq<char>, width: int) -> Seq<char> {
    spaces(width - s.len()) + s
}

fn push_spaces(out: &mut String, n: usize)
    ensures
        final(out)@ == old(out)@ + spaces(n as int),
{
    let mut i: usize = 0;
    while i < n
        invariant
            i <= n,
            out@ == old(out)@ + spaces(i as int),
        decreases n - i,
    {
        out.push(' ');
        i += 1;
        assert(out@ =~= old(out)@ + spaces(i as int));
    }
    assert(out@ =~= old(out)@ + spaces(n as int));
}

/// Appends `s` to `out`, at the left of a field of `width` characters.
pub fn push_left_justified(out: &mut String, s: &str, width: usize)
    ensures
        final(out)@ == old(out)@ + left_justified(s@, width as int),
{
    let len = s.unicode_len();
    out.append(s);
    if len < width {
        push_spaces(out, width - len);
    } else {
        assert(spaces(width - len) =~= Seq::<char>::empty());
    }
    assert(out@ =~= old(out)@ + left_justified(s@, width as int));
}

/// Appends `s` to `out`, at the right of a field of `width` characters.
pub fn push_right_justified(out: &mut String, s: &str, width: usize)
    ensures
        final(out)@ == old(out)@ + right_justified(s@, width as int),
{
    let len = s.unicode_len();
    if len < width {
        push_spaces(out, width - len);
    } else {
        assert(spaces(width - len) =~= Seq::<char>::empty());
    }
    out.append(s);
    assert(out@ =~= old(out)@ + right_justified(s@, width as int));
}

/// Whether `s` ends with `suffix`.
pub open spec fn ends_with(s: Seq<char>, suffix: Seq<char>) -> bool {
    s.len() >= suffix.len() && s.subrange(s.len() - suffix.len(), s.len() as int) == suffix
}

/// `s` without `suffix` at its end, as often as it stands there.
pub open spec fn without_suffix(s: Seq<char>, suffix: Seq<char>) -> Seq<char>
    decreases s.len(),
{
    if suffix.len() > 0 && ends_with(s, suffix) {
        without_suffix(s.take(s.len() - suffix.len()), suffix)
    } else {
        s
    }
}

fn ends_at(chars: &Vec<char>, end: usize, suffix: &Vec<char>) -> (yes: bool)
    requires
        end <= chars.len(),
    ensures
        yes == ends_with(chars@.take(end as int), suffix@),
{
    let m = suffix.len();
    if end < m {
        return false;
    }
    let ghost head = chars@.take(end as int);
    let ghost tail = head.subrange(end - m, end as int);
    let mut i: usize = 0;
    while i < m
        invariant
            m == suffix.len(),
            m <= end <= chars.len(),
            i <= m,
            head == chars@.take(end as int),
            tail == head.subrange(end - m, end as int),
            forall|j: int| 0 <= j < i ==> tail[j] == suffix[j],
        decreases m - i,
    {
        if chars[end - m + i] != suffix[i] {
            assert(tail[i as int] != suffix[i as int]);
            return false;
        }
        i += 1;
    }
    assert(tail =~= suffix@);
    true
}

/// Removes `suffix` from the end of `s`, as often as it stands there.
pub fn strip_suffix(s: &str, suffix: &str) -> (stripped: String)
    ensures
        stripped@ == without_suffix(s@, suffix@),
{
    let chars = chars_of(s);
    let ending = chars_of(suffix);
    let mut end: usize = chars.len();
    assert(chars@.take(end as int) =~= chars@);
    if ending.len() > 0 {
        while ends_at(&chars, end, &ending)
            invariant
                end <= chars.len(),
                ending.len() > 0,
                without_suffix(chars@, ending@) == without_suffix(
                    chars@.take(end as int),
                    ending@,
                ),
            decreases end,
        {
            assert(chars@.take(end as int).take(end - ending.len()) =~= chars@.take(
                end - ending.len(),
            ));
            end -= ending.len();
        }
    }
    let mut stripped = String::new();
    let mut i: usize = 0;
    while i < end
        invariant
            i <= end <= chars.len(),
            stripped@ == chars@.take(i as int),
        decreases end - i,
    {
        stripped.push(chars[i]);
        i += 1;
        assert(stripped@ =~= chars@.take(i as int));
    }
    stripped
}

} // verus!
