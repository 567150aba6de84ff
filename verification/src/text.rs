//! Building text: characters, decimal numerals, joined lists.

use vstd::prelude::*;
use vstd::string::StrSliceExecFns;

verus! {

/// `String::push` of the standard library: the text afterwards is the
/// text before with `c` at its end.
pub assume_specification[ String::push ](s: &mut String, c: char)
    ensures
        final(s)@ == old(s)@.push(c),
;

/// The character that writes the digit `d`.
pub open spec fn digit_char(d: int) -> char {
    if d == 0 {
        '0'
    } else if d == 1 {
        '1'
    } else if d == 2 {
        '2'
    } else if d == 3 {
        '3'
    } else if d == 4 {
        '4'
    } else if d == 5 {
        '5'
    } else if d == 6 {
        '6'
    } else if d == 7 {
        '7'
    } else if d == 8 {
        '8'
    } else {
        '9'
    }
}

/// The decimal numeral of `n`, without leading zeros.
pub open spec fn decimal_text(n: nat) -> Seq<char>
    decreases n,
{
    if n < 10 {
        seq![digit_char(n as int)]
    } else {
        decimal_text(n / 10).push(digit_char((n % 10) as int))
    }
}

/// The decimal numeral of `i`, with a minus sign before a negative one.
pub open spec fn integer_text(i: int) -> Seq<char> {
    if i < 0 {
        seq!['-'] + decimal_text((-i) as nat)
    } else {
        decimal_text(i as nat)
    }
}

/// The texts `parts` in order, with `sep` between each two.
pub open spec fn join(parts: Seq<Seq<char>>, sep: Seq<char>) -> Seq<char>
    decreases parts.len(),
{
    if parts.len() == 0 {
        Seq::empty()
    } else if parts.len() == 1 {
        parts[0]
    } else {
        join(parts.drop_last(), sep) + sep + parts.last()
    }
}

/// `text` with spaces before it, as many as it is shorter than `width`.
pub open spec fn pad_left(text: Seq<char>, width: nat) -> Seq<char> {
    if text.len() >= width {
        text
    } else {
        Seq::new((width - text.len()) as nat, |i: int| ' ') + text
    }
}

fn digit_of(d: u8) -> (c: char)
    requires
        d < 10,
    ensures
        c == digit_char(d as int),
{
    if d == 0 {
        '0'
    } else if d == 1 {
        '1'
    } else if d == 2 {
        '2'
    } else if d == 3 {
        '3'
    } else if d == 4 {
        '4'
    } else if d == 5 {
        '5'
    } else if d == 6 {
        '6'
    } else if d == 7 {
        '7'
    } else if d == 8 {
        '8'
    } else {
        '9'
    }
}

/// Writes the decimal numeral of `n` at the end of `out`.
fn push_decimal(out: &mut String, n: u64)
    ensures
        final(out)@ == old(out)@ + decimal_text(n as nat),
    decreases n,
{
    if n < 10 {
        out.push(digit_of(n as u8));
        assert(old(out)@.push(digit_char(n as int)) =~= old(out)@ + decimal_text(n as nat));
    } else {
        push_decimal(out, n / 10);
        out.push(digit_of((n % 10) as u8));
        assert((old(out)@ + decimal_text((n / 10) as nat)).push(digit_char((n % 10) as int))
            =~= old(out)@ + decimal_text(n as nat));
    }
}

/// Writes the decimal numeral of `i` at the end of `out`.
pub fn push_integer(out: &mut String, i: i32)
    ensures
        final(out)@ == old(out)@ + integer_text(i as int),
{
    if i < 0 {
        out.push('-');
        let magnitude: u64 = (-(i as i64)) as u64;
        push_decimal(out, magnitude);
        assert(old(out)@.push('-') + decimal_text((-i) as nat) =~= old(out)@ + (seq!['-']
            + decimal_text((-i) as nat)));
    } else {
        push_decimal(out, i as u64);
    }
}

/// Writes the decimal numeral of `n` at the end of `out`.
pub fn push_count(out: &mut String, n: usize)
    ensures
        final(out)@ == old(out)@ + decimal_text(n as nat),
{
    push_decimal(out, n as u64);
}

/// Writes `count` spaces at the end of `out`.
pub fn push_spaces(out: &mut String, count: usize)
    ensures
        final(out)@ == old(out)@ + Seq::new(count as nat, |i: int| ' '),
{
    let mut i: usize = 0;
    assert(old(out)@ + Seq::new(0, |i: int| ' ') =~= old(out)@);
    while i < count
        invariant
            i <= count,
            out@ == old(out)@ + Seq::new(i as nat, |i: int| ' '),
        decreases count - i,
    {
        out.push(' ');
        assert((old(out)@ + Seq::new(i as nat, |i: int| ' ')).push(' ') =~= old(out)@ + Seq::new(
            (i + 1) as nat,
            |i: int| ' ',
        ));
        i = i + 1;
    }
}

/// The characters of `input`, one by one.
pub fn chars_of(input: &str) -> (chars: Vec<char>)
    ensures
        chars@ == input@,
{
    let n = input.unicode_len();
    let mut chars: Vec<char> = Vec::new();
    let mut i: usize = 0;
    while i < n
        invariant
            i <= n,
            n == input@.len(),
            chars@ == input@.take(i as int),
        decreases n - i,
    {
        let c = input.get_char(i);
        chars.push(c);
        assert(input@.take(i as int).push(c) =~= input@.take(i + 1));
        i = i + 1;
    }
    assert(input@.take(n as int) =~= input@);
    chars
}

/// The text that the characters `chars` make.
pub fn string_of(chars: &Vec<char>) -> (out: String)
    ensures
        out@ == chars@,
{
    let mut out = String::new();
    let mut i: usize = 0;
    while i < chars.len()
        invariant
            i <= chars.len(),
            out@ == chars@.take(i as int),
        decreases chars.len() - i,
    {
        out.push(chars[i]);
        assert(chars@.take(i as int).push(chars@[i as int]) =~= chars@.take(i + 1));
        i = i + 1;
    }
    assert(chars@.take(chars@.len() as int) =~= chars@);
    out
}

/// Whether `pattern` stands in `s` from position `pos` on.
pub open spec fn matches_at(s: Seq<char>, pos: int, pattern: Seq<char>) -> bool {
    &&& 0 <= pos
    &&& pos + pattern.len() <= s.len()
    &&& forall|k: int| 0 <= k < pattern.len() ==> s[pos + k] == #[trigger] pattern[k]
}

/// The first position at or after `from` where `pattern` stands in
/// `s`, if there is one.
pub open spec fn find_from(s: Seq<char>, pattern: Seq<char>, from: int) -> Option<int>
    decreases s.len() - from,
{
    if from < 0 || from + pattern.len() > s.len() {
        None
    } else if matches_at(s, from, pattern) {
        Some(from)
    } else {
        find_from(s, pattern, from + 1)
    }
}

/// `s` with every occurrence of the non-empty text `from` replaced by
/// `to`: occurrences are taken from the left and do not overlap.
pub open spec fn replace_all(s: Seq<char>, from: Seq<char>, to: Seq<char>) -> Seq<char>
    decreases s.len(),
{
    if s.len() == 0 {
        Seq::empty()
    } else if from.len() > 0 && matches_at(s, 0, from) {
        to + replace_all(s.skip(from.len() as int), from, to)
    } else {
        seq![s[0]] + replace_all(s.skip(1), from, to)
    }
}

/// The characters that separate words: those that Unicode calls
/// white space.
pub open spec fn is_whitespace(c: char) -> bool {
    ||| '\u{9}' <= c <= '\u{d}'
    ||| c == ' '
    ||| c == '\u{85}'
    ||| c == '\u{a0}'
    ||| c == '\u{1680}'
    ||| '\u{2000}' <= c <= '\u{200a}'
    ||| c == '\u{2028}'
    ||| c == '\u{2029}'
    ||| c == '\u{202f}'
    ||| c == '\u{205f}'
    ||| c == '\u{3000}'
}

/// The first position at or after `pos` that holds no white space.
pub open spec fn whitespace_end(s: Seq<char>, pos: int) -> int
    decreases s.len() - pos,
{
    if 0 <= pos < s.len() && is_whitespace(s[pos]) {
        whitespace_end(s, pos + 1)
    } else {
        pos
    }
}

/// The position after the last character before `end` that is no
/// white space, and not before `start`.
pub open spec fn whitespace_start(s: Seq<char>, start: int, end: int) -> int
    decreases end - start,
{
    if start < end <= s.len() && is_whitespace(s[end - 1]) {
        whitespace_start(s, start, end - 1)
    } else {
        end
    }
}

/// `s` without the white space at its start and at its end.
pub open spec fn trimmed(s: Seq<char>) -> Seq<char> {
    let start = whitespace_end(s, 0);
    s.subrange(start, whitespace_start(s, start, s.len() as int))
}

/// Whether `c` separates words.
pub fn whitespace(c: char) -> (b: bool)
    ensures
        b == is_whitespace(c),
{
    (c >= '\u{9}' && c <= '\u{d}') || c == ' ' || c == '\u{85}' || c == '\u{a0}' || c
        == '\u{1680}' || (c >= '\u{2000}' && c <= '\u{200a}') || c == '\u{2028}' || c
        == '\u{2029}' || c == '\u{202f}' || c == '\u{205f}' || c == '\u{3000}'
}

/// The first position at or after `pos` that holds no white space.
pub fn skip_whitespace(chars: &Vec<char>, pos: usize) -> (end: usize)
    requires
        pos <= chars@.len(),
    ensures
        end == whitespace_end(chars@, pos as int),
        pos <= end <= chars@.len(),
{
    let n = chars.len();
    let mut end = pos;
    while end < n && whitespace(chars[end])
        invariant
            n == chars@.len(),
            pos <= end <= n,
            whitespace_end(chars@, pos as int) == whitespace_end(chars@, end as int),
        decreases n - end,
    {
        end = end + 1;
    }
    end
}

/// The position after the last character before `end` that is no
/// white space, and not before `start`.
pub fn skip_whitespace_back(chars: &Vec<char>, start: usize, end: usize) -> (stop: usize)
    requires
        start <= end <= chars@.len(),
    ensures
        stop == whitespace_start(chars@, start as int, end as int),
        start <= stop <= end,
{
    let mut stop = end;
    while stop > start && whitespace(chars[stop - 1])
        invariant
            start <= stop <= end <= chars@.len(),
            whitespace_start(chars@, start as int, end as int) == whitespace_start(
                chars@,
                start as int,
                stop as int,
            ),
        decreases stop - start,
    {
        stop = stop - 1;
    }
    stop
}

/// The characters of `chars` from `from` up to `to`.
pub fn slice_of(chars: &Vec<char>, from: usize, to: usize) -> (part: Vec<char>)
    requires
        from <= to <= chars@.len(),
    ensures
        part@ == chars@.subrange(from as int, to as int),
{
    let mut part: Vec<char> = Vec::new();
    let mut i: usize = from;
    while i < to
        invariant
            from <= i <= to <= chars@.len(),
            part@ == chars@.subrange(from as int, i as int),
        decreases to - i,
    {
        part.push(chars[i]);
        assert(chars@.subrange(from as int, i as int).push(chars@[i as int]) =~= chars@.subrange(
            from as int,
            i + 1,
        ));
        i = i + 1;
    }
    part
}

/// Whether `pattern` stands in `chars` from position `pos` on.
pub fn starts_at(chars: &Vec<char>, pos: usize, pattern: &Vec<char>) -> (b: bool)
    ensures
        b == matches_at(chars@, pos as int, pattern@),
{
    let n = chars.len();
    let m = pattern.len();
    if pos > n || m > n - pos {
        return false;
    }
    let mut k: usize = 0;
    while k < m
        invariant
            k <= m,
            m == pattern@.len(),
            n == chars@.len(),
            pos + m <= n,
            forall|j: int| 0 <= j < k ==> chars@[pos + j] == #[trigger] pattern@[j],
        decreases m - k,
    {
        if chars[pos + k] != pattern[k] {
            return false;
        }
        k = k + 1;
    }
    true
}

/// The first position at or after `from` where `pattern` stands in
/// `chars`, if there is one.
pub fn find_in(chars: &Vec<char>, pattern: &Vec<char>, from: usize) -> (r: Option<usize>)
    ensures
        match r {
            Some(pos) => find_from(chars@, pattern@, from as int) == Some(pos as int) && from
                <= pos && pos + pattern@.len() <= chars@.len(),
            None => find_from(chars@, pattern@, from as int) is None,
        },
{
    let n = chars.len();
    let m = pattern.len();
    let mut pos = from;
    while pos <= n && m <= n - pos
        invariant
            n == chars@.len(),
            m == pattern@.len(),
            from <= pos,
            find_from(chars@, pattern@, from as int) == find_from(chars@, pattern@, pos as int),
        decreases n + 1 - pos,
    {
        if starts_at(chars, pos, pattern) {
            return Some(pos);
        }
        pos = pos + 1;
    }
    None
}

/// `chars` with every occurrence of the non-empty text `from`
/// replaced by `to`.
pub fn replace_in(chars: &Vec<char>, from: &Vec<char>, to: &Vec<char>) -> (out: Vec<char>)
    requires
        from@.len() > 0,
    ensures
        out@ == replace_all(chars@, from@, to@),
{
    let n = chars.len();
    let m = from.len();
    let mut out: Vec<char> = Vec::new();
    let mut pos: usize = 0;
    proof {
        assert(chars@.skip(0) =~= chars@);
        assert(Seq::<char>::empty() + replace_all(chars@, from@, to@) =~= replace_all(
            chars@,
            from@,
            to@,
        ));
    }
    while pos < n
        invariant
            n == chars@.len(),
            m == from@.len(),
            m > 0,
            pos <= n,
            replace_all(chars@, from@, to@) == out@ + replace_all(
                chars@.skip(pos as int),
                from@,
                to@,
            ),
        decreases n - pos,
    {
        let ghost rest = chars@.skip(pos as int);
        let ghost before = out@;
        let found = starts_at(chars, pos, from);
        proof {
            assert(matches_at(rest, 0, from@) == matches_at(chars@, pos as int, from@)) by {
                if matches_at(chars@, pos as int, from@) {
                    assert forall|k: int| 0 <= k < from@.len() implies rest[0 + k]
                        == #[trigger] from@[k] by {
                        assert(chars@[pos + k] == from@[k]);
                    }
                }
                if matches_at(rest, 0, from@) {
                    assert forall|k: int| 0 <= k < from@.len() implies chars@[pos + k]
                        == #[trigger] from@[k] by {
                        assert(rest[0 + k] == from@[k]);
                    }
                }
            }
        }
        if found {
            let mut k: usize = 0;
            while k < to.len()
                invariant
                    k <= to.len(),
                    out@ == before + to@.take(k as int),
                decreases to.len() - k,
            {
                out.push(to[k]);
                assert((before + to@.take(k as int)).push(to@[k as int]) =~= before + to@.take(
                    k + 1,
                ));
                k = k + 1;
            }
            proof {
                assert(to@.take(to@.len() as int) =~= to@);
                assert(rest.skip(m as int) =~= chars@.skip(pos + m));
                assert(before + (to@ + replace_all(rest.skip(m as int), from@, to@)) =~= (before
                    + to@) + replace_all(rest.skip(m as int), from@, to@));
            }
            pos = pos + m;
        } else {
            out.push(chars[pos]);
            proof {
                assert(rest[0] == chars@[pos as int]);
                assert(rest.skip(1) =~= chars@.skip(pos + 1));
                assert(before + (seq![rest[0]] + replace_all(rest.skip(1), from@, to@))
                    =~= before.push(rest[0]) + replace_all(rest.skip(1), from@, to@));
            }
            pos = pos + 1;
        }
    }
    proof {
        assert(chars@.skip(n as int) =~= Seq::<char>::empty());
        assert(out@ + Seq::<char>::empty() =~= out@);
    }
    out
}

} // verus!
