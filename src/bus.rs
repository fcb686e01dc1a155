use vstd::prelude::*;

verus! {

/// Failure of the display's 8-bit parallel data bus.
#[derive(Clone, Copy, Debug, PartialEq, Eq, Structural)]
pub enum BusError {
    /// A data pin could not be read or driven.
    Pin,
    /// The bus could not change direction.
    Direction,
}

/// Whether data line `i` (0 to 7) carries a one in `value`.
pub open spec fn line_high(value: u8, i: int) -> bool {
    0 <= i < 8 && value & (1u8 << (i as u8)) != 0
}

/// The level of each data line D0..D7 when `value` is written to the bus.
pub fn data_pin_levels(value: u8) -> (r: [bool; 8])
    ensures
        forall|i: int| 0 <= i < 8 ==> #[trigger] r[i] == line_high(value, i),
{
    let mut r: [bool; 8] = [false;8];
    let mut i: u8 = 0;
    while i < 8
        invariant
            i <= 8,
            forall|j: int| 0 <= j < i ==> #[trigger] r[j] == line_high(value, j),
        decreases 8 - i,
    {
        r[i as usize] = value & (1u8 << i) != 0;
        i = i + 1;
    }
    r
}

/// The byte read from the bus when data line `i` is at `levels[i]`.
pub fn data_value(levels: [bool; 8]) -> (r: u8)
    ensures
        forall|i: int| 0 <= i < 8 ==> line_high(r, i) == #[trigger] levels[i],
{
    let mut value: u8 = 0;
    let mut i: u8 = 0;
    assert forall|j: int| 0 <= j < 8 implies !line_high(0u8, j) by {
        let b = j as u8;
        assert(0u8 & (1u8 << b) == 0) by (bit_vector);
    }
    while i < 8
        invariant
            i <= 8,
            forall|j: int|
                #![trigger line_high(value, j)]
                0 <= j < 8 ==> line_high(value, j) == (j < i && levels[j]),
        decreases 8 - i,
    {
        let ghost prev = value;
        if levels[i as usize] {
            value = value | (1u8 << i);
        }
        assert forall|j: int| 0 <= j < 8 implies #[trigger] line_high(value, j) == (j < i + 1
            && levels[j]) by {
            assert(line_high(prev, j) == (j < i && levels[j]));
            if levels[i as int] {
                let b = j as u8;
                assert((prev | (1u8 << i)) & (1u8 << b) != 0 <==> (prev & (1u8 << b) != 0 || b
                    == i)) by (bit_vector)
                    requires
                        i < 8,
                        b < 8,
                ;
            }
        }
        i = i + 1;
    }
    value
}

} // verus!
