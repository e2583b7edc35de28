//! Lines and white-space separated fields in byte text.
//!
//! The text is taken as UTF-8, but need not be valid: every rule is stated
//! on bytes.

use vstd::prelude::*;
use vstd::slice::slice_subrange;

use crate::decimal::{number, parse_number};

verus! {

/// The byte that ends a line.
pub const LINE_FEED: u8 = 10;

/// White space of one byte: tab, line feed, vertical tab, form feed,
/// carriage return and space.
pub open spec fn is_short_space(b: u8) -> bool {
    (9 <= b <= 13) || b == 32
}

/// White space of two bytes: next line (U+0085) and no-break space
/// (U+00A0).
pub open spec fn is_space_pair(a: u8, b: u8) -> bool {
    a == 0xC2 && (b == 0x85 || b == 0xA0)
}

/// White space of three bytes: U+1680, U+2000 to U+200A, U+2028, U+2029,
/// U+202F, U+205F and U+3000.
pub open spec fn is_space_triple(a: u8, b: u8, c: u8) -> bool {
    ||| a == 0xE1 && b == 0x9A && c == 0x80
    ||| a == 0xE2 && b == 0x80 && (0x80 <= c <= 0x8A || c == 0xA8 || c == 0xA9 || c == 0xAF)
    ||| a == 0xE2 && b == 0x81 && c == 0x9F
    ||| a == 0xE3 && b == 0x80 && c == 0x80
}

/// The number of bytes of the white-space character that begins at `at`,
/// or 0 where none begins there. White space is what Unicode calls so,
/// written in UTF-8.
pub open spec fn space_at(s: Seq<u8>, at: int) -> nat {
    if at < 0 || at >= s.len() {
        0
    } else if is_short_space(s[at]) {
        1
    } else if at + 1 < s.len() && is_space_pair(s[at], s[at + 1]) {
        2
    } else if at + 2 < s.len() && is_space_triple(s[at], s[at + 1], s[at + 2]) {
        3
    } else {
        0
    }
}

/// Number of bytes from `from` up to the next line feed, or up to the end
/// of `s` where no line feed follows.
pub open spec fn line_len(s: Seq<u8>, from: int) -> nat
    decreases s.len() - from,
{
    if from < 0 || from >= s.len() || s[from] == LINE_FEED {
        0
    } else {
        1 + line_len(s, from + 1)
    }
}

/// The lines of `s` that begin at or after `from`, where `from` is the
/// start of a line.
pub open spec fn lines_from(s: Seq<u8>, from: int) -> Seq<Seq<u8>>
    decreases s.len() - from,
{
    if from < 0 || from >= s.len() {
        Seq::empty()
    } else {
        let end = from + line_len(s, from);
        let rest = if end < s.len() {
            lines_from(s, end + 1)
        } else {
            Seq::empty()
        };
        seq![s.subrange(from, end)] + rest
    }
}

/// The lines of a text. Each line feed ends a line and is not part of it;
/// the last line needs none. A carriage return before the line feed stays
/// on the line, where it counts as white space.
pub open spec fn lines(s: Seq<u8>) -> Seq<Seq<u8>> {
    lines_from(s, 0)
}

/// Number of bytes of the white-space characters of `s` in a row, starting
/// at `from`.
pub open spec fn space_len(s: Seq<u8>, from: int) -> nat
    decreases s.len() - from,
{
    if space_at(s, from) == 0 {
        0
    } else {
        space_at(s, from) + space_len(s, from + space_at(s, from))
    }
}

/// Number of bytes of `s` in a row at which no white space begins,
/// starting at `from`.
pub open spec fn word_len(s: Seq<u8>, from: int) -> nat
    decreases s.len() - from,
{
    if from < 0 || from >= s.len() || space_at(s, from) > 0 {
        0
    } else {
        1 + word_len(s, from + 1)
    }
}

/// The fields of `s` that begin at or after `from`, where `from` is not
/// inside a field.
pub open spec fn fields_from(s: Seq<u8>, from: int) -> Seq<Seq<u8>>
    decreases s.len() - from,
{
    let start = from + space_len(s, from);
    if from < 0 || start >= s.len() {
        Seq::empty()
    } else {
        let end = start + word_len(s, start);
        let rest = if end < s.len() {
            fields_from(s, end)
        } else {
            Seq::empty()
        };
        seq![s.subrange(start, end)] + rest
    }
}

/// The fields of a line: its longest runs of bytes without white space,
/// from left to right.
pub open spec fn fields(s: Seq<u8>) -> Seq<Seq<u8>> {
    fields_from(s, 0)
}

/// `needle` stands in `s` at index `at`.
pub open spec fn occurs_at(s: Seq<u8>, needle: Seq<u8>, at: int) -> bool {
    &&& 0 <= at
    &&& at + needle.len() <= s.len()
    &&& s.subrange(at, at + needle.len()) == needle
}

/// `needle` stands somewhere in `s`.
pub open spec fn occurs_in(s: Seq<u8>, needle: Seq<u8>) -> bool {
    exists|at: int| occurs_at(s, needle, at)
}

/// `line_len` stays inside the text, crosses no line feed, and stops at one
/// unless the text ends first.
pub proof fn lemma_line_len(s: Seq<u8>, from: int)
    requires
        0 <= from <= s.len(),
    ensures
        from + line_len(s, from) <= s.len(),
        forall|i: int| from <= i < from + line_len(s, from) ==> s[i] != LINE_FEED,
        from + line_len(s, from) < s.len() ==> s[from + line_len(s, from)] == LINE_FEED,
    decreases s.len() - from,
{
    if from < s.len() && s[from] != LINE_FEED {
        lemma_line_len(s, from + 1);
    }
}

/// `space_len` stays inside the text, and stops where no white space
/// begins.
pub proof fn lemma_space_len(s: Seq<u8>, from: int)
    requires
        0 <= from <= s.len(),
    ensures
        from + space_len(s, from) <= s.len(),
        space_at(s, from + space_len(s, from)) == 0,
    decreases s.len() - from,
{
    if space_at(s, from) > 0 {
        lemma_space_len(s, from + space_at(s, from));
    }
}

/// `word_len` stays inside the text, covers no place where white space
/// begins, and stops at white space unless the text ends first.
pub proof fn lemma_word_len(s: Seq<u8>, from: int)
    requires
        0 <= from <= s.len(),
    ensures
        from + word_len(s, from) <= s.len(),
        forall|i: int| from <= i < from + word_len(s, from) ==> space_at(s, i) == 0,
        from + word_len(s, from) < s.len() ==> space_at(s, from + word_len(s, from)) > 0,
    decreases s.len() - from,
{
    if from < s.len() && space_at(s, from) == 0 {
        lemma_word_len(s, from + 1);
    }
}

/// A text splits into its first line and the lines after it.
pub proof fn lemma_lines_step(s: Seq<u8>, from: int)
    requires
        0 <= from < s.len(),
    ensures
        from + line_len(s, from) <= s.len(),
        lines_from(s, from).len() > 0,
        lines_from(s, from)[0] == s.subrange(from, from + line_len(s, from)),
        lines_from(s, from).drop_first() == lines_from(s, from + line_len(s, from) + 1),
{
    lemma_line_len(s, from);
    let end = from + line_len(s, from);
    let rest = lines_from(s, end + 1);
    assert(lines_from(s, from) =~= seq![s.subrange(from, end)] + rest);
    assert((seq![s.subrange(from, end)] + rest).drop_first() =~= rest);
}

/// No line holds a line feed.
pub proof fn lemma_lines_hold_no_line_feed(s: Seq<u8>, from: int, index: int)
    requires
        0 <= from <= s.len(),
        0 <= index < lines_from(s, from).len(),
    ensures
        forall|i: int|
            0 <= i < lines_from(s, from)[index].len() ==> lines_from(s, from)[index][i]
                != LINE_FEED,
    decreases s.len() - from,
{
    lemma_lines_step(s, from);
    if index > 0 {
        let next = from + line_len(s, from) + 1;
        assert(lines_from(s, from)[index] == lines_from(s, from).drop_first()[index - 1]);
        lemma_lines_hold_no_line_feed(s, next, index - 1);
    } else {
        lemma_line_len(s, from);
    }
}

/// White space that begins in a part of a text begins there in the text.
proof fn lemma_space_at_in_part(s: Seq<u8>, start: int, end: int, at: int)
    requires
        0 <= start <= end <= s.len(),
        space_at(s.subrange(start, end), at) > 0,
    ensures
        space_at(s, start + at) == space_at(s.subrange(start, end), at),
{
}

/// Every field holds a byte, and no white space begins in it.
pub proof fn lemma_fields_are_words(s: Seq<u8>, from: int, index: int)
    requires
        0 <= from <= s.len(),
        0 <= index < fields_from(s, from).len(),
    ensures
        fields_from(s, from)[index].len() > 0,
        forall|i: int| space_at(fields_from(s, from)[index], i) == 0,
    decreases s.len() - from,
{
    lemma_space_len(s, from);
    let start = from + space_len(s, from);
    lemma_word_len(s, start);
    let end = start + word_len(s, start);
    let rest = if end < s.len() {
        fields_from(s, end)
    } else {
        Seq::empty()
    };
    assert(fields_from(s, from) =~= seq![s.subrange(start, end)] + rest);
    if index > 0 {
        assert(fields_from(s, from)[index] == rest[index - 1]);
        lemma_fields_are_words(s, end, index - 1);
    } else {
        assert forall|i: int| space_at(s.subrange(start, end), i) == 0 by {
            if space_at(s.subrange(start, end), i) > 0 {
                lemma_space_at_in_part(s, start, end, i);
            }
        }
    }
}

/// Tells whether `a` is white space of one byte.
fn short_space(a: u8) -> (r: bool)
    ensures
        r == is_short_space(a),
{
    (9 <= a && a <= 13) || a == 32
}

/// Tells whether `a` and `b` are white space of two bytes.
fn space_pair(a: u8, b: u8) -> (r: bool)
    ensures
        r == is_space_pair(a, b),
{
    a == 0xC2 && (b == 0x85 || b == 0xA0)
}

/// Tells whether `a`, `b` and `c` are white space of three bytes.
fn space_triple(a: u8, b: u8, c: u8) -> (r: bool)
    ensures
        r == is_space_triple(a, b, c),
{
    if a == 0xE1 {
        b == 0x9A && c == 0x80
    } else if a == 0xE2 && b == 0x80 {
        (0x80 <= c && c <= 0x8A) || c == 0xA8 || c == 0xA9 || c == 0xAF
    } else if a == 0xE2 {
        b == 0x81 && c == 0x9F
    } else {
        a == 0xE3 && b == 0x80 && c == 0x80
    }
}

/// The number of bytes of the white-space character that begins at `at`,
/// or 0 where none begins there.
pub fn space_width(line: &[u8], at: usize) -> (r: usize)
    ensures
        r == space_at(line@, at as int),
{
    let n = line.len();
    if at >= n {
        0
    } else if short_space(line[at]) {
        1
    } else if n - at >= 2 && space_pair(line[at], line[at + 1]) {
        2
    } else if n - at >= 3 && space_triple(line[at], line[at + 1], line[at + 2]) {
        3
    } else {
        0
    }
}

/// The end of the line that begins at `from`: the index of the next line
/// feed, or the length of the text where none follows.
pub fn line_end(text: &[u8], from: usize) -> (end: usize)
    ensures
        end == from + line_len(text@, from as int),
        from <= text@.len() ==> end <= text@.len(),
{
    let n = text.len();
    let mut i = from;
    while i < n && text[i] != LINE_FEED
        invariant
            n == text@.len(),
            from <= i,
            from <= n ==> i <= n,
            from + line_len(text@, from as int) == i + line_len(text@, i as int),
        decreases n - i,
    {
        i += 1;
    }
    i
}

/// The index of the first byte at or after `from` at which the white
/// space ends, or the length of the line where only white space follows.
pub fn skip_spaces(line: &[u8], from: usize) -> (end: usize)
    ensures
        end == from + space_len(line@, from as int),
        from <= line@.len() ==> end <= line@.len(),
{
    let n = line.len();
    let mut i = from;
    loop
        invariant
            n == line@.len(),
            from <= i,
            from <= n ==> i <= n,
            from + space_len(line@, from as int) == i + space_len(line@, i as int),
        decreases n - i,
    {
        let width = space_width(line, i);
        if width == 0 {
            return i;
        }
        i += width;
    }
}

/// The index of the first byte at or after `from` at which white space
/// begins, or the length of the line where none follows.
pub fn word_end(line: &[u8], from: usize) -> (end: usize)
    ensures
        end == from + word_len(line@, from as int),
        from <= line@.len() ==> end <= line@.len(),
{
    let n = line.len();
    let mut i = from;
    while i < n && space_width(line, i) == 0
        invariant
            n == line@.len(),
            from <= i,
            from <= n ==> i <= n,
            from + word_len(line@, from as int) == i + word_len(line@, i as int),
        decreases n - i,
    {
        i += 1;
    }
    i
}

/// The field of `line` with the given index, counted from zero, or `None`
/// where the line has no more than `index` fields.
pub fn field<'a>(line: &'a [u8], index: usize) -> (r: Option<&'a [u8]>)
    ensures
        match r {
            Some(f) => index < fields(line@).len() && f@ == fields(line@)[index as int],
            None => fields(line@).len() <= index,
        },
{
    let n = line.len();
    let mut pos: usize = 0;
    let mut k: usize = 0;
    loop
        invariant
            n == line@.len(),
            pos <= n,
            k <= index,
            k <= fields(line@).len(),
            fields(line@).skip(k as int) =~= fields_from(line@, pos as int),
        decreases n - pos,
    {
        let start = skip_spaces(line, pos);
        if start >= n {
            return None;
        }
        let end = word_end(line, start);
        proof {
            lemma_space_len(line@, pos as int);
            lemma_word_len(line@, start as int);
            let found = line@.subrange(start as int, end as int);
            let rest = fields_from(line@, end as int);
            assert(fields_from(line@, pos as int) =~= seq![found] + rest);
            assert(fields(line@).skip(k as int)[0] == found);
            assert((seq![found] + rest).skip(1) =~= rest);
            assert(fields(line@).skip(k as int + 1) =~= fields(line@).skip(k as int).skip(1));
        }
        if k == index {
            return Some(slice_subrange(line, start, end));
        }
        k += 1;
        pos = end;
    }
}

/// The value of the field of `line` with the given index, read as an
/// unsigned decimal number; `None` where the line has no such field or the
/// field is no such number.
pub open spec fn number_at(line: Seq<u8>, index: int) -> Option<u64> {
    if 0 <= index < fields(line).len() {
        number(fields(line)[index])
    } else {
        None
    }
}

/// Reads the field of `line` with the given index as an unsigned decimal
/// number.
pub fn number_field(line: &[u8], index: usize) -> (r: Option<u64>)
    ensures
        r == number_at(line@, index as int),
{
    match field(line, index) {
        Some(token) => parse_number(token),
        None => None,
    }
}

/// Tells whether `needle` stands in `line` at index `at`.
pub fn matches_at(line: &[u8], needle: &[u8], at: usize) -> (r: bool)
    ensures
        r == occurs_at(line@, needle@, at as int),
{
    let n = line.len();
    let m = needle.len();
    if at > n || m > n - at {
        return false;
    }
    let mut j: usize = 0;
    while j < m
        invariant
            n == line@.len(),
            m == needle@.len(),
            at + m <= n,
            j <= m,
            forall|i: int| 0 <= i < j ==> line@[at + i] == needle@[i],
        decreases m - j,
    {
        if line[at + j] != needle[j] {
            assert(line@.subrange(at as int, at + m)[j as int] != needle@[j as int]);
            return false;
        }
        j += 1;
    }
    assert(line@.subrange(at as int, at + m) =~= needle@);
    true
}

/// Tells whether `line` begins with `prefix`.
pub fn starts_with(line: &[u8], prefix: &[u8]) -> (r: bool)
    ensures
        r == prefix@.is_prefix_of(line@),
{
    matches_at(line, prefix, 0)
}

/// Tells whether `needle` stands somewhere in `line`.
pub fn contains(line: &[u8], needle: &[u8]) -> (r: bool)
    ensures
        r == occurs_in(line@, needle@),
{
    let n = line.len();
    let m = needle.len();
    if m > n {
        return false;
    }
    let last = n - m;
    let mut at: usize = 0;
    loop
        invariant
            n == line@.len(),
            m == needle@.len(),
            last == n - m,
            at <= last,
            forall|i: int| 0 <= i < at ==> !occurs_at(line@, needle@, i),
        decreases last - at,
    {
        if matches_at(line, needle, at) {
            return true;
        }
        if at == last {
            return false;
        }
        at += 1;
    }
}

} // verus!
