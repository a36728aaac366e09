//! Reading text character by character, and writing it as UTF-16.

use vstd::prelude::*;
use vstd::string::*;

verus! {

/// The characters of each text of a list.
pub open spec fn text_views(texts: Seq<Vec<char>>) -> Seq<Seq<char>> {
    texts.map_values(|text: Vec<char>| text@)
}

/// The characters of a text.
pub fn chars_of(text: &str) -> (chars: Vec<char>)
    ensures
        chars@ == text@,
{
    let mut chars: Vec<char> = Vec::new();
    for c in it: text.chars()
        invariant
            it.seq() == text@,
            chars@ == text@.take(it.index() as int),
    {
        chars.push(c);
        assert(chars@ =~= text@.take(it.index() + 1));
    }
    assert(text@.take(text@.len() as int) =~= text@);
    chars
}

/// Whether two runs of characters are the same.
pub fn same_chars(left: &Vec<char>, right: &Vec<char>) -> (same: bool)
    ensures
        same == (left@ == right@),
{
    if left.len() != right.len() {
        return false;
    }
    let mut i: usize = 0;
    while i < left.len()
        invariant
            i <= left.len(),
            left.len() == right.len(),
            forall|j: int| 0 <= j < i ==> left@[j] == right@[j],
        decreases left.len() - i,
    {
        if left[i] != right[i] {
            return false;
        }
        i += 1;
    }
    assert(left@ =~= right@);
    true
}

/// Whether two texts are the same.
pub fn same_text(left: &str, right: &str) -> (same: bool)
    ensures
        same == (left@ == right@),
{
    same_chars(&chars_of(left), &chars_of(right))
}

/// The UTF-16 code units of a character: the character itself where it fits
/// into one unit, else a high and a low surrogate that share the twenty bits
/// by which it exceeds one unit.
pub open spec fn char_units(c: char) -> Seq<u16> {
    let code = c as u32;
    if code < 0x1_0000 {
        seq![code as u16]
    } else {
        seq![
            (0xD800 + (code - 0x1_0000) / 0x400) as u16,
            (0xDC00 + (code - 0x1_0000) % 0x400) as u16,
        ]
    }
}

/// The UTF-16 code units of a text.
pub open spec fn utf16(text: Seq<char>) -> Seq<u16>
    decreases text.len(),
{
    if text.len() == 0 {
        Seq::empty()
    } else {
        utf16(text.drop_last()) + char_units(text.last())
    }
}

/// A text takes one or two code units for each character, and holds a zero
/// unit only where it holds the character zero.
pub proof fn lemma_utf16(text: Seq<char>)
    ensures
        text.len() <= utf16(text).len() <= 2 * text.len(),
        utf16(text).contains(0u16) <==> text.contains('\0'),
    decreases text.len(),
{
    if text.len() == 0 {
    } else {
        let front = text.drop_last();
        let last = text.last();
        lemma_utf16(front);
        let units = utf16(text);
        assert(char_units(last).contains(0u16) <==> last == '\0') by {
            let code = last as u32;
            vstd::utf8::char_is_scalar(last);
            vstd::utf8::char_u32_cast(last, code);
            vstd::utf8::char_u32_cast('\0', 0u32);
            if last == '\0' {
                assert(char_units(last)[0] == 0u16);
            }
            if char_units(last).contains(0u16) {
                let k = choose|k: int|
                    0 <= k < char_units(last).len() && char_units(last)[k] == 0u16;
                if code < 0x1_0000 {
                    assert(char_units(last)[k] == code as u16);
                    assert(code == 0);
                } else {
                    let rest = (code - 0x1_0000) as int;
                    assert(0 <= rest / 0x400 <= 0x3FF);
                    assert(0 <= rest % 0x400 <= 0x3FF);
                    assert(k == 0 || k == 1);
                }
            }
        }
        if text.contains('\0') {
            let i = choose|i: int| 0 <= i < text.len() && text[i] == '\0';
            if i < front.len() {
                assert(front[i] == '\0');
                let k = choose|k: int| 0 <= k < utf16(front).len() && utf16(front)[k] == 0u16;
                assert(units[k] == 0u16);
            } else {
                assert(units[utf16(front).len() as int] == char_units(last)[0]);
            }
        }
        if units.contains(0u16) {
            let k = choose|k: int| 0 <= k < units.len() && units[k] == 0u16;
            if k < utf16(front).len() {
                assert(utf16(front)[k] == 0u16);
                let i = choose|i: int| 0 <= i < front.len() && front[i] == '\0';
                assert(text[i] == '\0');
            } else {
                assert(char_units(last)[k - utf16(front).len()] == 0u16);
                assert(text[text.len() - 1] == '\0');
            }
        }
    }
}

/// The UTF-16 code units of a text.
pub fn utf16_units(text: &str) -> (units: Vec<u16>)
    ensures
        units@ == utf16(text@),
{
    let mut units: Vec<u16> = Vec::new();
    assert(text@.take(0) =~= Seq::<char>::empty());
    for c in it: text.chars()
        invariant
            it.seq() == text@,
            units@ == utf16(text@.take(it.index() as int)),
    {
        proof {
            assert(text@.take(it.index() + 1).drop_last() =~= text@.take(it.index() as int));
            assert(text@.take(it.index() + 1).last() == c);
        }
        let ghost before = units@;
        let code: u32 = c as u32;
        if code < 0x1_0000 {
            units.push(code as u16);
        } else {
            let rest: u32 = code - 0x1_0000;
            units.push((0xD800 + rest / 0x400) as u16);
            units.push((0xDC00 + rest % 0x400) as u16);
        }
        assert(units@ =~= before + char_units(c));
    }
    assert(text@.take(text@.len() as int) =~= text@);
    units
}

} // verus!
