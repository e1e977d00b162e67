//! What the operations on 16-bit text do, said of units and bytes.

use vstd::prelude::*;

use crate::processes::ProcessEntry;
use crate::utf16::{
    contains_utf16_double_nul, decoded, double_nul_at, double_nul_position, encoded, first_nul,
    is_double_nul_position, law_encoded_text_reads_back, nul_terminated_utf16_to_string,
    text_of_units, units_of, units_of_bytes, utf16_double_nul_position,
};

verus! {

/// The unit is the first of a pair.
pub open spec fn opens_pair(unit: u16) -> bool {
    0xd800 <= unit < 0xdc00
}

/// The unit is the second of a pair.
pub open spec fn closes_pair(unit: u16) -> bool {
    0xdc00 <= unit < 0xe000
}

/// Where no pair is cut, the text of units one behind the other is that of the first and that of the
/// second.
pub proof fn law_decoding_goes_by_pairs(a: Seq<u16>, b: Seq<u16>)
    requires
        !(a.len() > 0 && b.len() > 0 && opens_pair(a[a.len() - 1]) && closes_pair(b[0])),
    ensures
        decoded(a + b) == decoded(a) + decoded(b),
    decreases a.len(),
{
    if a.len() == 0 {
        assert(a + b == b);
        assert(decoded(a) + decoded(b) == decoded(b));
    } else {
        let all = a + b;
        assert(all[0] == a[0]);
        if a.len() > 1 {
            assert(all[1] == a[1]);
        } else if b.len() > 0 {
            assert(all[1] == b[0]);
        }
        if opens_pair(a[0]) && a.len() > 1 && closes_pair(a[1]) {
            assert(all.skip(2) == a.skip(2) + b);
            law_decoding_goes_by_pairs(a.skip(2), b);
        } else {
            assert(all.skip(1) == a.skip(1) + b);
            law_decoding_goes_by_pairs(a.skip(1), b);
        }
        assert(decoded(all) == decoded(a) + decoded(b));
    }
}

/// A unit that belongs to no pair is the character with its number, or U+FFFD where there is none.
pub proof fn law_single_unit(unit: u16)
    ensures
        decoded(seq![unit]).len() == 1,
        opens_pair(unit) || closes_pair(unit) ==> decoded(seq![unit])[0] == '\u{fffd}',
        !opens_pair(unit) && !closes_pair(unit) ==> decoded(seq![unit])[0] as int == unit,
{
    let units = seq![unit];
    assert(units.skip(1) == Seq::<u16>::empty());
    assert(decoded(units.skip(1)) == Seq::<char>::empty());
}

/// A pair is one character, beyond those of single units.
pub proof fn law_pair_of_units(high: u16, low: u16)
    requires
        opens_pair(high),
        closes_pair(low),
    ensures
        decoded(seq![high, low]).len() == 1,
        decoded(seq![high, low])[0] as int == 0x10000 + (high - 0xd800) * 0x400 + (low - 0xdc00),
{
    let units = seq![high, low];
    assert(units.skip(2) == Seq::<u16>::empty());
    assert(decoded(units.skip(2)) == Seq::<char>::empty());
}

/// Units are read pair by pair and unit by unit.
pub proof fn law_text_of_units(
    units: &[u16],
    first: &[u16],
    second: &[u16],
    text: String,
    head: String,
    tail: String,
)
    requires
        call_ensures(text_of_units, (units,), text),
        call_ensures(text_of_units, (first,), head),
        call_ensures(text_of_units, (second,), tail),
        units@ == first@ + second@,
    ensures
        !(first@.len() > 0 && second@.len() > 0 && opens_pair(first@[first@.len() - 1])
            && closes_pair(second@[0])) ==> text@ == head@ + tail@,
        units@.len() == 0 ==> text@.len() == 0,
        units@.len() == 1 ==> text@.len() == 1 && text@[0] as int == if opens_pair(units@[0])
            || closes_pair(units@[0]) {
            0xfffd
        } else {
            units@[0] as int
        },
        units@.len() == 2 && opens_pair(units@[0]) && closes_pair(units@[1]) ==> text@.len() == 1
            && text@[0] as int == 0x10000 + (units@[0] - 0xd800) * 0x400 + (units@[1] - 0xdc00),
{
    if !(first@.len() > 0 && second@.len() > 0 && opens_pair(first@[first@.len() - 1])
        && closes_pair(second@[0])) {
        law_decoding_goes_by_pairs(first@, second@);
    }
    if units@.len() == 1 {
        law_single_unit(units@[0]);
        assert(units@ == seq![units@[0]]);
    }
    if units@.len() == 2 && opens_pair(units@[0]) && closes_pair(units@[1]) {
        law_pair_of_units(units@[0], units@[1]);
        assert(units@ == seq![units@[0], units@[1]]);
    }
}

/// Text that was encoded is read back by its units.
pub proof fn law_units_of_text_are_read_back(text: Seq<char>, units: &[u16], read: String)
    requires
        call_ensures(text_of_units, (units,), read),
        units@ == encoded(text),
    ensures
        read@ == text,
{
    law_encoded_text_reads_back(text);
}

/// Two bytes make a unit, the low one first, and a last single byte makes none.
pub proof fn law_units_of_bytes(bytes: &[u8], units: Vec<u16>, i: int)
    requires
        call_ensures(units_of_bytes, (bytes,), units),
        0 <= i < units@.len(),
    ensures
        2 * units@.len() <= bytes@.len() <= 2 * units@.len() + 1,
        units@[i] == bytes@[2 * i] + 256 * bytes@[2 * i + 1],
{
}

/// Bytes make as many units as they hold pairs.
pub proof fn law_number_of_units(bytes: Seq<u8>)
    ensures
        2 * units_of(bytes).len() <= bytes.len() <= 2 * units_of(bytes).len() + 1,
        forall|i: int|
            0 <= i < units_of(bytes).len() ==> #[trigger] units_of(bytes)[i] == bytes[2 * i] + 256
                * bytes[2 * i + 1],
{
}

/// Two zero units end a block just where both units there are zero.
pub proof fn law_block_ends_at_two_zero_units(bytes: Seq<u8>, at: int)
    ensures
        double_nul_at(bytes, at) <==> 0 <= at && at % 2 == 0 && at / 2 + 1 < units_of(bytes).len()
            && units_of(bytes)[at / 2] == 0 && units_of(bytes)[at / 2 + 1] == 0,
{
    if 0 <= at && at % 2 == 0 {
        let k = at / 2;
        assert(at == 2 * k);
        assert(at + 2 == 2 * (k + 1));
        if k + 1 < units_of(bytes).len() {
            assert(units_of(bytes)[k] == bytes[2 * k] + 256 * bytes[2 * k + 1]);
            assert(units_of(bytes)[k + 1] == bytes[2 * (k + 1)] + 256 * bytes[2 * (k + 1) + 1]);
        }
    }
}

/// The end of a block is the first even place with four zero bytes.
pub proof fn law_end_of_block_is_found(bytes: &[u8], position: Option<usize>)
    requires
        call_ensures(utf16_double_nul_position, (bytes,), position),
    ensures
        match position {
            Some(at) => {
                &&& at % 2 == 0
                &&& at + 4 <= bytes@.len()
                &&& bytes@[at as int] == 0 && bytes@[at + 1] == 0
                &&& bytes@[at + 2] == 0 && bytes@[at + 3] == 0
                &&& forall|i: int|
                    0 <= i < at && i % 2 == 0 ==> !(#[trigger] bytes@[i] == 0 && bytes@[i + 1] == 0
                        && bytes@[i + 2] == 0 && bytes@[i + 3] == 0)
            },
            None => forall|i: int|
                0 <= i && i % 2 == 0 && i + 4 <= bytes@.len() ==> !(#[trigger] bytes@[i] == 0
                    && bytes@[i + 1] == 0 && bytes@[i + 2] == 0 && bytes@[i + 3] == 0),
        },
{
    let chosen = double_nul_position(bytes@);
    assert(is_double_nul_position(bytes@, chosen));
    match position {
        Some(at) => {
            assert(double_nul_at(bytes@, at as int));
            assert forall|i: int| 0 <= i < at && i % 2 == 0 implies !(#[trigger] bytes@[i] == 0
                && bytes@[i + 1] == 0 && bytes@[i + 2] == 0 && bytes@[i + 3] == 0) by {
                assert(!double_nul_at(bytes@, i));
            }
        },
        None => {
            assert forall|i: int|
                0 <= i && i % 2 == 0 && i + 4 <= bytes@.len() implies !(#[trigger] bytes@[i] == 0
                && bytes@[i + 1] == 0 && bytes@[i + 2] == 0 && bytes@[i + 3] == 0) by {
                assert(!double_nul_at(bytes@, i));
            }
        },
    }
}

/// A block has an end just where one is found.
pub proof fn law_end_of_block_is_told(bytes: &[u8], found: bool, position: Option<usize>)
    requires
        call_ensures(contains_utf16_double_nul, (bytes,), found),
        call_ensures(utf16_double_nul_position, (bytes,), position),
    ensures
        found <==> position is Some,
{
}

/// The units before the first zero count, and what stands behind it does not.
pub proof fn law_zero_ends_the_units(name: Seq<u16>, behind: Seq<u16>)
    requires
        forall|i: int| 0 <= i < name.len() ==> #[trigger] name[i] != 0,
        behind.len() == 0 || behind[0] == 0,
    ensures
        first_nul(name + behind) == name.len(),
        (name + behind).take(first_nul(name + behind)) == name,
    decreases name.len(),
{
    let all = name + behind;
    if name.len() > 0 {
        let rest = name.skip(1);
        assert(name[0] != 0);
        assert(all.skip(1) == rest + behind);
        assert forall|i: int| 0 <= i < rest.len() implies #[trigger] rest[i] != 0 by {
            assert(name[i + 1] != 0);
        }
        law_zero_ends_the_units(rest, behind);
    } else {
        assert(all == behind);
    }
    assert(all.take(name.len() as int) == name);
}

/// A name is what stands before the first zero, whatever stands behind it.
pub proof fn law_name_ends_at_the_first_zero(
    buffer: &[u16],
    name: &[u16],
    behind: Seq<u16>,
    text: String,
    alone: String,
)
    requires
        call_ensures(nul_terminated_utf16_to_string, (buffer,), text),
        call_ensures(text_of_units, (name,), alone),
        buffer@ == name@ + behind,
        forall|i: int| 0 <= i < name@.len() ==> #[trigger] name@[i] != 0,
        behind.len() == 0 || behind[0] == 0,
    ensures
        text@ == alone@,
{
    law_zero_ends_the_units(name@, behind);
}

/// The name of an executable is the text of its units before the first zero.
pub proof fn law_name_of_executable(entry: ProcessEntry, name: Seq<u16>, behind: Seq<u16>)
    requires
        entry.exe_file@ == name + behind,
        forall|i: int| 0 <= i < name.len() ==> #[trigger] name[i] != 0,
        behind.len() == 0 || behind[0] == 0,
    ensures
        entry.exe_name() == decoded(name),
{
    law_zero_ends_the_units(name, behind);
}

} // verus!
