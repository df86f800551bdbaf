//! Text helpers: comparing string slices, joining parts with a separator,
//! recognising blank text, and taking white space or a repeated pattern off
//! the ends of a text.

use vstd::prelude::*;

verus! {

/// `str`'s `==` from the standard library: two string slices are equal exactly
/// when they hold the same characters. Taken on trust from its documentation.
pub assume_specification[ <str as PartialEq>::eq ](a: &str, b: &str) -> (same: bool)
    ensures
        same == (a@ == b@),
;

/// `c` is white space: one of the 25 characters that Unicode gives the
/// property White_Space. In ASCII these are the space and the controls from
/// tab to carriage return; beyond it, the next-line control, the no-break
/// space, and the spaces and the line and paragraph separators of the
/// general punctuation and ideographic blocks.
pub open spec fn white_space(c: char) -> bool {
    ||| c == ' '
    ||| ('\u{9}' <= c && c <= '\u{d}')
    ||| c == '\u{85}'
    ||| c == '\u{a0}'
    ||| c == '\u{1680}'
    ||| ('\u{2000}' <= c && c <= '\u{200a}')
    ||| c == '\u{2028}'
    ||| c == '\u{2029}'
    ||| c == '\u{202f}'
    ||| c == '\u{205f}'
    ||| c == '\u{3000}'
}

/// `char::is_whitespace` from the standard library, which its documentation
/// defines as having the Unicode property White_Space. Taken on trust: it
/// answers `true` for exactly the characters of [`white_space`].
pub assume_specification[ char::is_whitespace ](c: char) -> (white: bool)
    ensures
        white == white_space(c),
;

/// Text is blank when it holds nothing but white space.
pub open spec fn is_blank(text: Seq<char>) -> bool {
    forall|i: int| 0 <= i < text.len() ==> white_space(#[trigger] text[i])
}

/// The parts in order, with `sep` between each two neighbours.
pub open spec fn join_with(parts: Seq<Seq<char>>, sep: Seq<char>) -> Seq<char>
    decreases parts.len(),
{
    if parts.len() == 0 {
        Seq::empty()
    } else if parts.len() == 1 {
        parts[0]
    } else {
        join_with(parts.drop_last(), sep) + sep + parts.last()
    }
}

/// The separator that stands between clips in joined text: one blank line.
pub open spec fn blank_line() -> Seq<char> {
    "\n\n"@
}

/// Tells whether `text` is empty or holds only white space.
pub fn blank(text: &str) -> (b: bool)
    ensures
        b == is_blank(text@),
{
    let mut all_white = true;
    for c in it: text.chars()
        invariant
            all_white == is_blank(text@.take(it.index())),
            it.seq() == text@,
    {
        proof {
            let k = it.index();
            assert(text@.take(k + 1)[k] == c);
        }
        if !c.is_whitespace() {
            all_white = false;
        }
    }
    proof {
        assert(text@.take(text@.len() as int) =~= text@);
    }
    all_white
}

/// Joins `parts` with a blank line between each two neighbours.
pub fn join_blank_line(parts: &Vec<&str>) -> (joined: String)
    ensures
        joined@ == join_with(parts.deep_view(), blank_line()),
{
    let mut joined = String::new();
    let mut i: usize = 0;
    while i < parts.len()
        invariant
            i <= parts.len(),
            joined@ == join_with(parts.deep_view().take(i as int), blank_line()),
        decreases parts.len() - i,
    {
        proof {
            let views = parts.deep_view();
            assert(views.take(i + 1).drop_last() =~= views.take(i as int));
        }
        if i > 0 {
            joined.append("\n\n");
        }
        joined.append(parts[i]);
        i += 1;
    }
    proof {
        assert(parts.deep_view().take(parts.len() as int) =~= parts.deep_view());
    }
    joined
}

/// `text` without the white space it starts with.
pub open spec fn trimmed_start(text: Seq<char>) -> Seq<char>
    decreases text.len(),
{
    if text.len() > 0 && white_space(text[0]) {
        trimmed_start(text.drop_first())
    } else {
        text
    }
}

/// `text` without the white space it ends with.
pub open spec fn trimmed_end(text: Seq<char>) -> Seq<char>
    decreases text.len(),
{
    if text.len() > 0 && white_space(text.last()) {
        trimmed_end(text.drop_last())
    } else {
        text
    }
}

/// `text` without the white space around it.
pub open spec fn trimmed(text: Seq<char>) -> Seq<char> {
    trimmed_end(trimmed_start(text))
}

/// `text` starts with `pattern`.
pub open spec fn has_prefix(text: Seq<char>, pattern: Seq<char>) -> bool {
    pattern.len() <= text.len() && text.subrange(0, pattern.len() as int) == pattern
}

/// `text` ends with `pattern`.
pub open spec fn has_suffix(text: Seq<char>, pattern: Seq<char>) -> bool {
    pattern.len() <= text.len() && text.subrange(text.len() - pattern.len(), text.len() as int)
        == pattern
}

/// `text` with `pattern` taken off its start as often as it stands there.
pub open spec fn without_leading(text: Seq<char>, pattern: Seq<char>) -> Seq<char>
    decreases text.len(),
{
    if pattern.len() > 0 && has_prefix(text, pattern) {
        without_leading(text.skip(pattern.len() as int), pattern)
    } else {
        text
    }
}

/// `text` with `pattern` taken off its end as often as it stands there.
pub open spec fn without_trailing(text: Seq<char>, pattern: Seq<char>) -> Seq<char>
    decreases text.len(),
{
    if pattern.len() > 0 && has_suffix(text, pattern) {
        without_trailing(text.take(text.len() - pattern.len()), pattern)
    } else {
        text
    }
}

/// The characters of `text`, one by one.
pub fn chars_of(text: &str) -> (chars: Vec<char>)
    ensures
        chars@ == text@,
{
    let mut chars: Vec<char> = Vec::new();
    for c in it: text.chars()
        invariant
            it.seq() == text@,
            chars@ == text@.take(it.index()),
    {
        chars.push(c);
    }
    chars
}

/// Where the part of `chars` between `from` and `to` starts once the white
/// space at its start is passed over.
pub(crate) fn skip_white_start(chars: &Vec<char>, from: usize, to: usize) -> (start: usize)
    requires
        from <= to <= chars.len(),
    ensures
        from <= start <= to,
        chars@.subrange(start as int, to as int) == trimmed_start(
            chars@.subrange(from as int, to as int),
        ),
{
    let mut start = from;
    while start < to && chars[start].is_whitespace()
        invariant
            from <= start <= to <= chars.len(),
            trimmed_start(chars@.subrange(from as int, to as int)) == trimmed_start(
                chars@.subrange(start as int, to as int),
            ),
        decreases to - start,
    {
        proof {
            let rest = chars@.subrange(start as int, to as int);
            assert(rest.drop_first() =~= chars@.subrange(start + 1, to as int));
        }
        start += 1;
    }
    start
}

/// Where the part of `chars` between `from` and `to` ends once the white
/// space at its end is passed over.
pub(crate) fn skip_white_end(chars: &Vec<char>, from: usize, to: usize) -> (end: usize)
    requires
        from <= to <= chars.len(),
    ensures
        from <= end <= to,
        chars@.subrange(from as int, end as int) == trimmed_end(
            chars@.subrange(from as int, to as int),
        ),
{
    let mut end = to;
    while end > from && chars[end - 1].is_whitespace()
        invariant
            from <= end <= to <= chars.len(),
            trimmed_end(chars@.subrange(from as int, to as int)) == trimmed_end(
                chars@.subrange(from as int, end as int),
            ),
        decreases end - from,
    {
        proof {
            let rest = chars@.subrange(from as int, end as int);
            assert(rest.drop_last() =~= chars@.subrange(from as int, end - 1));
        }
        end -= 1;
    }
    end
}

/// Tells whether `pattern` stands in `chars` from `at` on.
fn matches_at(chars: &Vec<char>, at: usize, pattern: &Vec<char>) -> (same: bool)
    requires
        at + pattern.len() <= chars.len(),
    ensures
        same == (chars@.subrange(at as int, at + pattern.len()) == pattern@),
{
    let mut k: usize = 0;
    while k < pattern.len()
        invariant
            k <= pattern.len(),
            at + pattern.len() <= chars.len(),
            forall|j: int| 0 <= j < k ==> chars[at + j] == #[trigger] pattern[j],
        decreases pattern.len() - k,
    {
        if chars[at + k] != pattern[k] {
            return false;
        }
        k += 1;
    }
    assert(chars@.subrange(at as int, at + pattern.len()) =~= pattern@);
    true
}

/// Where the part of `chars` between `from` and `to` starts once `pattern`
/// is taken off its start as often as it stands there.
pub(crate) fn skip_leading(chars: &Vec<char>, from: usize, to: usize, pattern: &Vec<char>) -> (start:
    usize)
    requires
        from <= to <= chars.len(),
    ensures
        from <= start <= to,
        chars@.subrange(start as int, to as int) == without_leading(
            chars@.subrange(from as int, to as int),
            pattern@,
        ),
{
    let mut start = from;
    if pattern.len() == 0 {
        return start;
    }
    while pattern.len() <= to - start
        invariant
            pattern.len() > 0,
            from <= start <= to <= chars.len(),
            without_leading(chars@.subrange(from as int, to as int), pattern@) == without_leading(
                chars@.subrange(start as int, to as int),
                pattern@,
            ),
        decreases to - start,
    {
        let ghost rest = chars@.subrange(start as int, to as int);
        proof {
            assert(rest.subrange(0, pattern.len() as int) =~= chars@.subrange(
                start as int,
                start + pattern.len(),
            ));
            assert(rest.skip(pattern.len() as int) =~= chars@.subrange(
                start + pattern.len(),
                to as int,
            ));
        }
        if !matches_at(chars, start, pattern) {
            return start;
        }
        start += pattern.len();
    }
    start
}

/// Where the part of `chars` between `from` and `to` ends once `pattern` is
/// taken off its end as often as it stands there.
pub(crate) fn skip_trailing(chars: &Vec<char>, from: usize, to: usize, pattern: &Vec<char>) -> (end:
    usize)
    requires
        from <= to <= chars.len(),
    ensures
        from <= end <= to,
        chars@.subrange(from as int, end as int) == without_trailing(
            chars@.subrange(from as int, to as int),
            pattern@,
        ),
{
    let mut end = to;
    if pattern.len() == 0 {
        return end;
    }
    while pattern.len() <= end - from
        invariant
            pattern.len() > 0,
            from <= end <= to <= chars.len(),
            without_trailing(chars@.subrange(from as int, to as int), pattern@)
                == without_trailing(chars@.subrange(from as int, end as int), pattern@),
        decreases end - from,
    {
        let ghost rest = chars@.subrange(from as int, end as int);
        proof {
            assert(rest.subrange(rest.len() - pattern.len(), rest.len() as int)
                =~= chars@.subrange(end - pattern.len(), end as int));
            assert(rest.take(rest.len() - pattern.len()) =~= chars@.subrange(
                from as int,
                end - pattern.len(),
            ));
        }
        if !matches_at(chars, end - pattern.len(), pattern) {
            return end;
        }
        end -= pattern.len();
    }
    end
}

} // verus!
