//! Text in 16-bit units, as Windows keeps it.

use vstd::prelude::*;

use vstd::slice::slice_subrange;

verus! {

/// The first of the two units of a character beyond the 16-bit range.
pub open spec fn is_high_surrogate(unit: u16) -> bool {
    0xd800 <= unit <= 0xdbff
}

/// The second of the two units of a character beyond the 16-bit range.
pub open spec fn is_low_surrogate(unit: u16) -> bool {
    0xdc00 <= unit <= 0xdfff
}

/// The character of two units.
pub open spec fn pair_char(high: u16, low: u16) -> char {
    (0x10000 + (high - 0xd800) * 0x400 + (low - 0xdc00)) as char
}

/// The text of the units. A unit that is no character and belongs to no pair stands as U+FFFD.
pub open spec fn decoded(units: Seq<u16>) -> Seq<char>
    decreases units.len(),
{
    if units.len() == 0 {
        seq![]
    } else if !is_high_surrogate(units[0]) && !is_low_surrogate(units[0]) {
        seq![units[0] as char] + decoded(units.skip(1))
    } else if is_high_surrogate(units[0]) && units.len() > 1 && is_low_surrogate(units[1]) {
        seq![pair_char(units[0], units[1])] + decoded(units.skip(2))
    } else {
        seq!['\u{fffd}'] + decoded(units.skip(1))
    }
}

/// The units of a character.
pub open spec fn char_units(c: char) -> Seq<u16> {
    if (c as u32) < 0x10000 {
        seq![c as u16]
    } else {
        seq![
            (0xd800 + (c as u32 - 0x10000) / 0x400) as u16,
            (0xdc00 + (c as u32 - 0x10000) % 0x400) as u16,
        ]
    }
}

/// The units of a text.
pub open spec fn encoded(text: Seq<char>) -> Seq<u16>
    decreases text.len(),
{
    if text.len() == 0 {
        seq![]
    } else {
        char_units(text[0]) + encoded(text.skip(1))
    }
}

/// The units that the bytes hold, low byte first. A last single byte is left out.
pub open spec fn units_of(bytes: Seq<u8>) -> Seq<u16> {
    Seq::new(bytes.len() / 2, |i: int| (bytes[2 * i] + 256 * bytes[2 * i + 1]) as u16)
}

/// Two zero units stand at a place in the bytes.
pub open spec fn double_nul_at(bytes: Seq<u8>, at: int) -> bool {
    &&& 0 <= at
    &&& at % 2 == 0
    &&& at + 4 <= bytes.len()
    &&& bytes[at] == 0
    &&& bytes[at + 1] == 0
    &&& bytes[at + 2] == 0
    &&& bytes[at + 3] == 0
}

/// `position` is the first place of two zero units, if there is one.
pub open spec fn is_double_nul_position(bytes: Seq<u8>, position: Option<int>) -> bool {
    match position {
        Some(at) => double_nul_at(bytes, at) && forall|i: int|
            0 <= i < at ==> !#[trigger] double_nul_at(bytes, i),
        None => forall|i: int| !#[trigger] double_nul_at(bytes, i),
    }
}

/// The first place of two zero units.
pub open spec fn double_nul_position(bytes: Seq<u8>) -> Option<int> {
    choose|position: Option<int>| is_double_nul_position(bytes, position)
}

/// Where the first zero unit stands; the number of units where there is none.
pub open spec fn first_nul(units: Seq<u16>) -> int
    decreases units.len(),
{
    if units.len() == 0 || units[0] == 0 {
        0
    } else {
        1 + first_nul(units.skip(1))
    }
}

/// There is just one first place of two zero units.
pub proof fn lemma_double_nul_position(bytes: Seq<u8>, position: Option<int>)
    requires
        is_double_nul_position(bytes, position),
    ensures
        double_nul_position(bytes) == position,
{
    let chosen = double_nul_position(bytes);
    assert(is_double_nul_position(bytes, chosen));
    if let Some(a) = chosen {
        if let Some(b) = position {
            assert(!(a < b) && !(b < a));
        } else {
            assert(!double_nul_at(bytes, a));
        }
    } else if let Some(b) = position {
        assert(!double_nul_at(bytes, b));
    }
}

/// Where two zero units first stand in the bytes, counted in bytes.
pub fn utf16_double_nul_position(bytes: &[u8]) -> (position: Option<usize>)
    ensures
        is_double_nul_position(bytes@, double_nul_position(bytes@)),
        position matches Some(at) ==> double_nul_position(bytes@) == Some(at as int),
        position is None ==> double_nul_position(bytes@) is None,
{
    let mut at: usize = 0;
    while at < bytes.len() && bytes.len() - at >= 4
        invariant
            at <= bytes@.len(),
            at % 2 == 0,
            forall|i: int| 0 <= i < at ==> !#[trigger] double_nul_at(bytes@, i),
        decreases bytes@.len() - at,
    {
        if bytes[at] == 0 && bytes[at + 1] == 0 && bytes[at + 2] == 0 && bytes[at + 3] == 0 {
            proof {
                lemma_double_nul_position(bytes@, Some(at as int));
            }
            return Some(at);
        }
        assert(!double_nul_at(bytes@, at as int));
        assert(!double_nul_at(bytes@, at + 1));
        at = at + 2;
    }
    proof {
        assert forall|i: int| !#[trigger] double_nul_at(bytes@, i) by {
            assert(i < at || i + 4 > bytes@.len());
        }
        lemma_double_nul_position(bytes@, None);
    }
    None
}

/// Whether two zero units stand in the bytes.
pub fn contains_utf16_double_nul(bytes: &[u8]) -> (found: bool)
    ensures
        found == exists|at: int| double_nul_at(bytes@, at),
        found == (double_nul_position(bytes@) is Some),
{
    utf16_double_nul_position(bytes).is_some()
}

/// The units that the bytes hold, low byte first.
pub fn units_of_bytes(bytes: &[u8]) -> (units: Vec<u16>)
    ensures
        units@ == units_of(bytes@),
{
    let mut units: Vec<u16> = Vec::new();
    let mut i: usize = 0;
    while i < bytes.len() / 2
        invariant
            i <= bytes@.len() / 2,
            units@ == units_of(bytes@).take(i as int),
        decreases bytes@.len() / 2 - i,
    {
        let unit: u16 = bytes[2 * i] as u16 + 256 * bytes[2 * i + 1] as u16;
        units.push(unit);
        i = i + 1;
    }
    assert(units_of(bytes@).take(i as int) == units_of(bytes@));
    units
}

/// The text of the units.
pub fn text_of_units(units: &[u16]) -> (text: String)
    ensures
        text@ == decoded(units@),
{
    let mut text = String::new();
    let mut i: usize = 0;
    assert(units@.skip(0) == units@);
    while i < units.len()
        invariant
            i <= units@.len(),
            text@ + decoded(units@.skip(i as int)) == decoded(units@),
        decreases units@.len() - i,
    {
        let unit = units[i];
        let ghost rest = units@.skip(i as int);
        let ghost before = text@;
        let mut code: u32 = unit as u32;
        let mut used: usize = 1;
        if 0xd800 <= unit && unit <= 0xdfff {
            code = 0xfffd;
            if unit <= 0xdbff && i + 1 < units.len() {
                let next = units[i + 1];
                if 0xdc00 <= next && next <= 0xdfff {
                    code = 0x10000 + (unit as u32 - 0xd800) * 0x400 + (next as u32 - 0xdc00);
                    used = 2;
                }
            }
        }
        let c = match char::from_u32(code) {
            Some(c) => c,
            None => '\u{fffd}',
        };
        text.push(c);
        assert(rest.skip(used as int) == units@.skip(i + used));
        assert(decoded(rest) == seq![c] + decoded(rest.skip(used as int)));
        assert(before.push(c) + decoded(rest.skip(used as int)) == before + decoded(rest));
        i = i + used;
    }
    assert(decoded(units@.skip(i as int)) == Seq::<char>::empty());
    text
}

/// The text of the units before the first zero unit.
pub fn nul_terminated_utf16_to_string(buffer: &[u16]) -> (text: String)
    ensures
        text@ == decoded(buffer@.take(first_nul(buffer@))),
{
    let mut len: usize = 0;
    assert(buffer@.skip(0) == buffer@);
    while len < buffer.len() && buffer[len] != 0
        invariant
            len <= buffer@.len(),
            first_nul(buffer@) == len + first_nul(buffer@.skip(len as int)),
        decreases buffer@.len() - len,
    {
        assert(buffer@.skip(len as int).skip(1) == buffer@.skip(len + 1));
        len = len + 1;
    }
    let head = slice_subrange(buffer, 0, len);
    assert(head@ == buffer@.take(len as int));
    text_of_units(head)
}

/// The units of a character are read back as that character, whatever follows them.
proof fn lemma_char_units(c: char, rest: Seq<u16>)
    ensures
        decoded(char_units(c) + rest) == seq![c] + decoded(rest),
{
    let units = char_units(c) + rest;
    if (c as u32) < 0x10000 {
        assert(units.skip(1) == rest);
        assert(units[0] as char == c);
    } else {
        let code = c as u32 - 0x10000;
        let high = (0xd800 + code / 0x400) as u16;
        let low = (0xdc00 + code % 0x400) as u16;
        assert(units[0] == high && units[1] == low);
        assert(high - 0xd800 == code / 0x400 && low - 0xdc00 == code % 0x400);
        assert(pair_char(high, low) == c);
        assert(units.skip(2) == rest);
    }
}

/// A text that is encoded is read back unchanged.
pub proof fn law_encoded_text_reads_back(text: Seq<char>)
    ensures
        decoded(encoded(text)) == text,
    decreases text.len(),
{
    if text.len() > 0 {
        lemma_char_units(text[0], encoded(text.skip(1)));
        law_encoded_text_reads_back(text.skip(1));
        assert(seq![text[0]] + text.skip(1) == text);
    }
}

} // verus!
