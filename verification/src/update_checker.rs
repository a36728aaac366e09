//! Telling a newer release from the running version.

use vstd::prelude::*;
use vstd::string::*;
use crate::text::{chars_of, text_views};

verus! {

/// Whether a character is a decimal digit.
pub open spec fn is_digit(c: char) -> bool {
    '0' <= c <= '9'
}

/// Whether every character of a text is a decimal digit.
pub open spec fn all_digits(text: Seq<char>) -> bool {
    forall|i: int| 0 <= i < text.len() ==> is_digit(#[trigger] text[i])
}

/// The number that decimal digits write.
pub open spec fn digits_value(digits: Seq<char>) -> nat
    decreases digits.len(),
{
    if digits.len() == 0 {
        0
    } else {
        (digits_value(digits.drop_last()) * 10 + (digits.last() as int - '0' as int)) as nat
    }
}

/// What follows the sign of a text: the text itself, where it has none.
pub open spec fn unsigned_part(text: Seq<char>) -> Seq<char> {
    if text.len() > 0 && text[0] == '+' {
        text.drop_first()
    } else {
        text
    }
}

/// The number that a text writes: a plus sign or none, then one decimal digit
/// or more, and the value at most `u32::MAX`. Any other text writes none.
pub open spec fn number_of(text: Seq<char>) -> Option<u32> {
    let digits = unsigned_part(text);
    if digits.len() > 0 && all_digits(digits) && digits_value(digits) <= u32::MAX {
        Some(digits_value(digits) as u32)
    } else {
        None
    }
}

/// The pieces into which the separator cuts a text. There is one piece more
/// than there are separators; pieces may be empty.
pub open spec fn pieces(text: Seq<char>, separator: char) -> Seq<Seq<char>>
    decreases text.len(),
{
    if text.len() == 0 {
        seq![Seq::empty()]
    } else {
        let before = pieces(text.drop_last(), separator);
        if text.last() == separator {
            before.push(Seq::empty())
        } else {
            before.drop_last().push(before.last().push(text.last()))
        }
    }
}

/// The numbers that the pieces write, in order; a piece that writes none is
/// passed over.
pub open spec fn numbers_of(texts: Seq<Seq<char>>) -> Seq<u32>
    decreases texts.len(),
{
    if texts.len() == 0 {
        Seq::empty()
    } else {
        match number_of(texts.last()) {
            Some(number) => numbers_of(texts.drop_last()).push(number),
            None => numbers_of(texts.drop_last()),
        }
    }
}

/// The parts of a version: the numbers between its dots.
pub open spec fn version_parts(version: Seq<char>) -> Seq<u32> {
    numbers_of(pieces(version, '.'))
}

/// The part at an index, or zero where the version has fewer parts.
pub open spec fn part_at(parts: Seq<u32>, index: int) -> u32 {
    if 0 <= index < parts.len() {
        parts[index]
    } else {
        0
    }
}

/// Whether `latest` comes after `current` by major, minor and patch part, the
/// first three in this order. Parts after the third play no part.
pub open spec fn comes_after(latest: Seq<u32>, current: Seq<u32>) -> bool {
    ||| part_at(latest, 0) > part_at(current, 0)
    ||| part_at(latest, 0) == part_at(current, 0) && part_at(latest, 1) > part_at(current, 1)
    ||| part_at(latest, 0) == part_at(current, 0) && part_at(latest, 1) == part_at(current, 1)
        && part_at(latest, 2) > part_at(current, 2)
}

/// The name of a release tag without the letters `v` that it starts with.
pub open spec fn without_prefix(tag: Seq<char>) -> Seq<char>
    decreases tag.len(),
{
    if tag.len() > 0 && tag[0] == 'v' {
        without_prefix(tag.drop_first())
    } else {
        tag
    }
}

proof fn lemma_digits_value_push(digits: Seq<char>, digit: char)
    ensures
        digits_value(digits.push(digit)) == (digits_value(digits) * 10 + (digit as int
            - '0' as int)) as nat,
{
    assert(digits.push(digit).drop_last() =~= digits);
}

/// Digits that follow do not make a number smaller.
proof fn lemma_digits_value_grows(digits: Seq<char>, count: int)
    requires
        all_digits(digits),
        0 <= count <= digits.len(),
    ensures
        digits_value(digits.take(count)) <= digits_value(digits),
    decreases digits.len() - count,
{
    if count == digits.len() {
        assert(digits.take(count) =~= digits);
    } else {
        lemma_digits_value_grows(digits, count + 1);
        assert(digits.take(count + 1).drop_last() =~= digits.take(count));
        assert(is_digit(digits[count]));
        assert(digits.take(count + 1).last() == digits[count]);
    }
}

/// The number that a piece of text writes.
pub fn parse_number(text: &Vec<char>) -> (number: Option<u32>)
    ensures
        number == number_of(text@),
{
    let start: usize = if text.len() > 0 && text[0] == '+' {
        1
    } else {
        0
    };
    let ghost digits = unsigned_part(text@);
    assert(digits =~= text@.skip(start as int));
    if start == text.len() {
        return None;
    }
    let mut value: u32 = 0;
    let mut k: usize = start;
    while k < text.len()
        invariant
            start <= k <= text.len(),
            digits == unsigned_part(text@),
            digits == text@.skip(start as int),
            all_digits(digits.take(k - start)),
            value == digits_value(digits.take(k - start)),
        decreases text.len() - k,
    {
        let c: char = text[k];
        assert(digits[k - start] == c);
        if !(c >= '0' && c <= '9') {
            assert(!is_digit(digits[k - start]));
            return None;
        }
        let digit: u32 = c as u32 - '0' as u32;
        proof {
            assert(digits.take(k - start + 1) =~= digits.take(k - start).push(c));
            lemma_digits_value_push(digits.take(k - start), c);
            assert forall|i: int| 0 <= i < k - start + 1 implies is_digit(
                #[trigger] digits.take(k - start + 1)[i],
            ) by {
                if i < k - start {
                    assert(digits.take(k - start)[i] == digits.take(k - start + 1)[i]);
                }
            }
            if all_digits(digits) {
                lemma_digits_value_grows(digits, k - start + 1);
            }
        }
        if value > (u32::MAX - digit) / 10 {
            return None;
        }
        value = value * 10 + digit;
        k += 1;
    }
    assert(digits.take(text.len() - start) =~= digits);
    Some(value)
}

/// The pieces into which the separator cuts a text.
pub fn split_on(text: &Vec<char>, separator: char) -> (parts: Vec<Vec<char>>)
    ensures
        text_views(parts@) == pieces(text@, separator),
{
    let mut parts: Vec<Vec<char>> = Vec::new();
    let mut current: Vec<char> = Vec::new();
    let mut i: usize = 0;
    assert(text@.take(0) =~= Seq::<char>::empty());
    assert(text_views(parts@).push(current@) =~= seq![Seq::<char>::empty()]);
    while i < text.len()
        invariant
            i <= text.len(),
            pieces(text@.take(i as int), separator) == text_views(parts@).push(current@),
        decreases text.len() - i,
    {
        let c: char = text[i];
        let ghost done = text_views(parts@);
        let ghost piece = current@;
        proof {
            assert(text@.take(i + 1).drop_last() =~= text@.take(i as int));
            assert(text@.take(i + 1).last() == c);
            assert(done.push(piece).drop_last() =~= done);
        }
        if c == separator {
            parts.push(current);
            current = Vec::new();
            assert(text_views(parts@) =~= done.push(piece));
        } else {
            current.push(c);
        }
        i += 1;
    }
    assert(text@.take(text.len() as int) =~= text@);
    let ghost done = text_views(parts@);
    let ghost piece = current@;
    parts.push(current);
    assert(text_views(parts@) =~= done.push(piece));
    parts
}

/// The parts of a version.
pub fn parse_version(version: &str) -> (parts: Vec<u32>)
    ensures
        parts@ == version_parts(version@),
{
    let texts = split_on(&chars_of(version), '.');
    let ghost views = text_views(texts@);
    let mut parts: Vec<u32> = Vec::new();
    let mut i: usize = 0;
    assert(views.take(0) =~= Seq::<Seq<char>>::empty());
    while i < texts.len()
        invariant
            i <= texts.len(),
            views == text_views(texts@),
            parts@ == numbers_of(views.take(i as int)),
        decreases texts.len() - i,
    {
        proof {
            assert(views.take(i + 1).drop_last() =~= views.take(i as int));
            assert(views.take(i + 1).last() == texts@[i as int]@);
        }
        match parse_number(&texts[i]) {
            Some(number) => {
                parts.push(number);
            },
            None => {},
        }
        i += 1;
    }
    assert(views.take(texts.len() as int) =~= views);
    parts
}

fn part(parts: &Vec<u32>, index: usize) -> (value: u32)
    ensures
        value == part_at(parts@, index as int),
{
    if index < parts.len() {
        parts[index]
    } else {
        0
    }
}

/// Whether `latest` is a newer version than `current`.
///
/// A version is read as the numbers between its dots; what is no number is
/// passed over, and a part that is missing counts as zero. The versions are
/// compared by their first three parts.
pub fn is_newer_version(current: &str, latest: &str) -> (newer: bool)
    ensures
        newer == comes_after(version_parts(latest@), version_parts(current@)),
{
    let current_parts = parse_version(current);
    let latest_parts = parse_version(latest);
    let mut index: usize = 0;
    while index < 3
        invariant
            index <= 3,
            current_parts@ == version_parts(current@),
            latest_parts@ == version_parts(latest@),
            forall|j: int|
                0 <= j < index ==> part_at(latest_parts@, j) == part_at(current_parts@, j),
        decreases 3 - index,
    {
        let current_part = part(&current_parts, index);
        let latest_part = part(&latest_parts, index);
        if latest_part > current_part {
            return true;
        } else if latest_part < current_part {
            return false;
        }
        index += 1;
    }
    false
}

/// Whether the release with this tag is newer than the running version. The
/// letters `v` that a tag starts with are not part of its version.
pub fn update_available(current: &str, tag: &str) -> (available: bool)
    ensures
        available == comes_after(
            version_parts(without_prefix(tag@)),
            version_parts(current@),
        ),
{
    let count: usize = tag.unicode_len();
    let mut start: usize = 0;
    assert(tag@.skip(0) =~= tag@);
    while start < count && tag.get_char(start) == 'v'
        invariant
            start <= count,
            count == tag@.len(),
            without_prefix(tag@) == without_prefix(tag@.skip(start as int)),
        decreases count - start,
    {
        assert(tag@.skip(start as int)[0] == 'v');
        assert(tag@.skip(start as int).drop_first() =~= tag@.skip(start + 1));
        start += 1;
    }
    let version = tag.substring_char(start, count);
    assert(tag@.subrange(start as int, count as int) =~= tag@.skip(start as int));
    is_newer_version(current, version)
}

} // verus!
