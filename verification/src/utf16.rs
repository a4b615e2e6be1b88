//! UTF-16 code units of text, and text of UTF-16 code units.

use vstd::prelude::*;

verus! {

/// The replacement character that stands for a code unit which is no part of
/// well-formed UTF-16.
pub const REPLACEMENT: char = '\u{FFFD}';

/// `char::from_u32` gives the character of a scalar value, and nothing for a
/// surrogate or a value beyond the last code point.
pub assume_specification[ char::from_u32 ](code: u32) -> (r: Option<char>)
    ensures
        r == (if is_scalar(code as int) {
            Some(code as char)
        } else {
            None
        }),
;

/// `String::push` appends one character.
pub assume_specification[ String::push ](text: &mut String, ch: char)
    ensures
        final(text)@ == old(text)@.push(ch),
;

/// A Unicode scalar value: a code point that is no surrogate.
pub open spec fn is_scalar(code: int) -> bool {
    0 <= code <= 0xD7FF || 0xE000 <= code <= 0x10FFFF
}

/// The first unit of a surrogate pair.
pub open spec fn is_high_surrogate(unit: u16) -> bool {
    0xD800 <= unit <= 0xDBFF
}

/// The second unit of a surrogate pair.
pub open spec fn is_low_surrogate(unit: u16) -> bool {
    0xDC00 <= unit <= 0xDFFF
}

/// The one or two code units of a character.
pub open spec fn char_units(c: char) -> Seq<u16> {
    let code = c as int;
    if code < 0x10000 {
        seq![code as u16]
    } else {
        seq![
            (0xD800 + (code - 0x10000) / 0x400) as u16,
            (0xDC00 + (code - 0x10000) % 0x400) as u16,
        ]
    }
}

/// The code units of a text: those of its characters, in order.
pub open spec fn utf16_units(text: Seq<char>) -> Seq<u16>
    decreases text.len(),
{
    if text.len() == 0 {
        Seq::empty()
    } else {
        char_units(text[0]) + utf16_units(text.drop_first())
    }
}

/// Appends the code units of one character.
pub fn push_char_units(out: &mut Vec<u16>, c: char)
    ensures
        final(out)@ == old(out)@ + char_units(c),
{
    let code: u32 = c as u32;
    if code < 0x10000 {
        out.push(code as u16);
    } else {
        let rest: u32 = code - 0x10000;
        out.push((0xD800 + rest / 0x400) as u16);
        out.push((0xDC00 + rest % 0x400) as u16);
    }
    assert(final(out)@ =~= old(out)@ + char_units(c));
}

/// The UTF-16 code units of a text.
pub fn encode_utf16(text: &str) -> (units: Vec<u16>)
    ensures
        units@ == utf16_units(text@),
{
    let mut units: Vec<u16> = Vec::new();
    assert(text@.skip(0) =~= text@);
    for c in it: text.chars()
        invariant
            it.seq() == text@,
            utf16_units(text@) == units@ + utf16_units(text@.skip(it.index() as int)),
    {
        proof {
            let done = it.index() as int;
            let rest = text@.skip(done);
            assert(rest.drop_first() =~= text@.skip(done + 1));
            assert(units@ + (char_units(c) + utf16_units(rest.drop_first())) =~= (units@
                + char_units(c)) + utf16_units(rest.drop_first()));
        }
        push_char_units(&mut units, c);
    }
    assert(text@.skip(text@.len() as int) =~= Seq::<char>::empty());
    units
}

/// The character that a surrogate pair stands for.
pub open spec fn pair_char(high: u16, low: u16) -> char {
    (0x10000 + (high - 0xD800) * 0x400 + (low - 0xDC00)) as char
}

/// The text that a run of code units stands for. A unit outside the
/// surrogate range is its own character, a high surrogate with the low
/// surrogate after it is one character, and any other surrogate is read as
/// the replacement character.
pub open spec fn utf16_text(units: Seq<u16>) -> Seq<char>
    decreases units.len(),
{
    if units.len() == 0 {
        Seq::empty()
    } else if !is_high_surrogate(units[0]) && !is_low_surrogate(units[0]) {
        seq![units[0] as char] + utf16_text(units.skip(1))
    } else if is_high_surrogate(units[0]) && units.len() >= 2 && is_low_surrogate(units[1]) {
        seq![pair_char(units[0], units[1])] + utf16_text(units.skip(2))
    } else {
        seq![REPLACEMENT] + utf16_text(units.skip(1))
    }
}

/// The text of a run of code units, with the replacement character for
/// every surrogate that has no partner.
pub fn decode_utf16(units: &[u16]) -> (text: String)
    ensures
        text@ == utf16_text(units@),
{
    let mut text = String::new();
    let mut at: usize = 0;
    assert(units@.skip(0) =~= units@);
    while at < units.len()
        invariant
            at <= units.len(),
            utf16_text(units@) == text@ + utf16_text(units@.skip(at as int)),
        decreases units.len() - at,
    {
        let ghost rest = units@.skip(at as int);
        let unit: u16 = units[at];
        let mut next: char = REPLACEMENT;
        let mut used: usize = 1;
        if unit < 0xD800 || unit > 0xDFFF {
            if let Some(c) = char::from_u32(unit as u32) {
                next = c;
            }
        } else if unit <= 0xDBFF && at + 1 < units.len() && 0xDC00 <= units[at + 1] && units[at
            + 1] <= 0xDFFF {
            let low: u16 = units[at + 1];
            let code: u32 = 0x10000 + (unit as u32 - 0xD800) * 0x400 + (low as u32 - 0xDC00);
            if let Some(c) = char::from_u32(code) {
                next = c;
            }
            used = 2;
        }
        proof {
            assert(rest[0] == unit);
            assert(rest.len() >= 2 ==> rest[1] == units@[at + 1]);
            assert(rest.skip(used as int) =~= units@.skip(at + used));
            assert(utf16_text(rest) == seq![next] + utf16_text(rest.skip(used as int)));
            assert(text@ + (seq![next] + utf16_text(rest.skip(used as int))) =~= text@.push(next)
                + utf16_text(rest.skip(used as int)));
        }
        text.push(next);
        at = at + used;
    }
    assert(units@.skip(units@.len() as int) =~= Seq::<u16>::empty());
    text
}

/// A character below the supplementary planes is one unit, which is no
/// surrogate; any other is a high surrogate and then a low one.
pub proof fn lemma_char_units_shape(c: char)
    ensures
        (c as int) < 0x10000 ==> char_units(c).len() == 1 && char_units(c)[0] == c as int,
        (c as int) < 0x10000 ==> !is_high_surrogate(char_units(c)[0]) && !is_low_surrogate(
            char_units(c)[0],
        ),
        (c as int) >= 0x10000 ==> char_units(c).len() == 2 && is_high_surrogate(char_units(c)[0])
            && is_low_surrogate(char_units(c)[1]),
{
    let code = c as int;
    if code >= 0x10000 {
        let rest = code - 0x10000;
        assert(0 <= rest <= 0xFFFFF);
        assert(0 <= rest / 0x400 <= 0x3FF);
        assert(0 <= rest % 0x400 <= 0x3FF);
    }
}

/// Reading the units of one character, with anything after them, gives the
/// character back, and then what the rest reads as.
pub proof fn lemma_text_of_char_units(c: char, rest: Seq<u16>)
    ensures
        utf16_text(char_units(c) + rest) == seq![c] + utf16_text(rest),
{
    let units = char_units(c) + rest;
    let code = c as int;
    if code < 0x10000 {
        assert(units[0] == code as u16);
        assert(units.skip(1) =~= rest);
    } else {
        let high = (0xD800 + (code - 0x10000) / 0x400) as u16;
        let low = (0xDC00 + (code - 0x10000) % 0x400) as u16;
        assert(units[0] == high);
        assert(units[1] == low);
        assert(units.skip(2) =~= rest);
        assert(pair_char(high, low) == c);
    }
}

/// Text survives the way through its code units.
pub proof fn lemma_utf16_round_trip(text: Seq<char>)
    ensures
        utf16_text(utf16_units(text)) == text,
    decreases text.len(),
{
    if text.len() > 0 {
        lemma_utf16_round_trip(text.drop_first());
        lemma_text_of_char_units(text[0], utf16_units(text.drop_first()));
        assert(seq![text[0]] + text.drop_first() =~= text);
    }
}

/// Only the character NUL has a zero among its code units.
pub proof fn lemma_units_without_zero(text: Seq<char>)
    requires
        !text.contains('\0'),
    ensures
        !utf16_units(text).contains(0u16),
    decreases text.len(),
{
    if text.len() > 0 {
        let tail = text.drop_first();
        assert forall|c: char| tail.contains(c) implies text.contains(c) by {
            let i = choose|i: int| 0 <= i < tail.len() && tail[i] == c;
            assert(text[i + 1] == c);
        }
        lemma_units_without_zero(tail);
        assert(text.contains(text[0]));
        let head = char_units(text[0]);
        let all = utf16_units(text);
        assert forall|i: int| 0 <= i < all.len() implies all[i] != 0 by {
            if i < head.len() {
                assert(all[i] == head[i]);
                assert(text[0] != '\0');
                lemma_char_units_shape(text[0]);
            } else {
                assert(all[i] == utf16_units(tail)[i - head.len()]);
                assert(utf16_units(tail).contains(all[i]));
                assert(all[i] != 0);
            }
        }
    }
}

} // verus!
