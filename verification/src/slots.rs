//! Reference slots, and the runs of slots that objects hold.
//!
//! A slot is four bytes wide where references are compressed and eight where they are not.

use crate::address::Address;
use vstd::arithmetic::power2::{lemma2_to64, pow2};
use vstd::prelude::*;

verus! {

/// A place in memory that holds a reference.
#[derive(Clone, Copy, Debug, PartialEq, Eq)]
pub struct OpenJDKSlot<const COMPRESSED: bool> {
    pub addr: Address,
}

/// The width of a slot in bytes.
pub open spec fn slot_bytes(compressed: bool) -> nat {
    if compressed {
        4
    } else {
        8
    }
}

/// Whether `count` slots that follow one another from the address `start` on all lie at
/// addresses that exist.
pub open spec fn run_fits(start: int, count: nat, compressed: bool) -> bool {
    &&& 0 <= start <= usize::MAX
    &&& count > 0 ==> start + (count - 1) * slot_bytes(compressed) <= usize::MAX
}

/// The addresses of `count` slots that follow one another from the address `start` on.
pub open spec fn run_of_slots(start: int, count: nat, compressed: bool) -> Seq<Address> {
    Seq::new(count, |i: int| Address((start + i * slot_bytes(compressed)) as usize))
}

/// The binary logarithm of the width of a slot: 2 where references are compressed, else 3.
pub fn log_bytes_in_slot(compressed: bool) -> (log: usize)
    ensures
        log == if compressed {
            2int
        } else {
            3int
        },
        pow2(log as nat) == slot_bytes(compressed),
{
    proof {
        lemma2_to64();
    }
    if compressed {
        2
    } else {
        3
    }
}

impl<const COMPRESSED: bool> OpenJDKSlot<COMPRESSED> {
    /// The width of a slot in bytes.
    pub fn bytes_in_slot() -> (bytes: usize)
        ensures
            bytes == slot_bytes(COMPRESSED),
            COMPRESSED ==> bytes == 4,
            !COMPRESSED ==> bytes == 8,
    {
        if COMPRESSED {
            4
        } else {
            8
        }
    }
}

/// Whether `count` slots that follow one another from the address `start` on all lie at
/// addresses that exist.
pub fn is_run_in_memory(start: Address, count: usize, compressed: bool) -> (fits: bool)
    ensures
        fits == run_fits(start.at(), count as nat, compressed),
        count == 0 ==> fits,
        count > 0 && compressed ==> fits == (start.0 + (count - 1) * 4 <= usize::MAX),
        count > 0 && !compressed ==> fits == (start.0 + (count - 1) * 8 <= usize::MAX),
{
    if count == 0 {
        true
    } else if compressed {
        count - 1 <= (usize::MAX - start.0) / 4
    } else {
        count - 1 <= (usize::MAX - start.0) / 8
    }
}

/// Slots are four bytes wide where references are compressed, and else eight.
pub proof fn law_slots_have_their_width()
    ensures
        slot_bytes(true) == 4,
        slot_bytes(false) == 8,
{
}

/// A run has as many slots as it counts, and each lies one width above the one before, from the
/// start on.
pub proof fn law_run_goes_up_slot_by_slot(start: int, count: nat, compressed: bool, i: int)
    ensures
        run_of_slots(start, count, compressed).len() == count,
        run_fits(start, count, compressed) && 0 <= i < count ==> {
            let slots = run_of_slots(start, count, compressed);
            &&& slots[i].0 == start + i * (if compressed {
                4int
            } else {
                8int
            })
            &&& slots[0].0 == start
            &&& i > 0 ==> slots[i].0 - slots[i - 1].0 == if compressed {
                4int
            } else {
                8int
            }
        },
{
    if run_fits(start, count, compressed) && 0 <= i < count {
        let width = slot_bytes(compressed) as int;
        let slots = run_of_slots(start, count, compressed);
        assert(0 <= i * width <= (count - 1) * width) by (nonlinear_arith)
            requires
                0 <= i < count,
                width == 4 || width == 8,
        ;
        assert(slots[0].0 == start + 0 * width);
        if i > 0 {
            assert((i - 1) * width == i * width - width) by (nonlinear_arith);
            assert(0 <= (i - 1) * width) by (nonlinear_arith)
                requires
                    0 < i,
                    width == 4 || width == 8,
            ;
            assert(slots[i - 1].0 == start + (i - 1) * width);
        }
    }
}

/// A run fits if it starts at an address and its last slot does.
pub proof fn law_run_fits_if_its_ends_do(start: int, count: nat, compressed: bool)
    ensures
        run_fits(start, count, compressed) <==> {
            &&& 0 <= start <= usize::MAX
            &&& count > 0 && compressed ==> start + (count - 1) * 4 <= usize::MAX
            &&& count > 0 && !compressed ==> start + (count - 1) * 8 <= usize::MAX
        },
{
}

/// Slots of one run do not overlap: the later one starts where the earlier one has ended, or
/// above that.
pub proof fn law_slots_of_a_run_do_not_overlap(
    start: int,
    count: nat,
    compressed: bool,
    i: int,
    j: int,
)
    requires
        run_fits(start, count, compressed),
        0 <= i < j < count,
    ensures
        run_of_slots(start, count, compressed)[i].at() + slot_bytes(compressed)
            <= run_of_slots(start, count, compressed)[j].at(),
{
    let width = slot_bytes(compressed) as int;
    assert(0 <= i * width && (i + 1) * width <= j * width && j * width <= (count - 1) * width)
        by (nonlinear_arith)
        requires
            0 <= i < j < count,
            width == 4 || width == 8,
    ;
    assert((i + 1) * width == i * width + width) by (nonlinear_arith);
}

} // verus!
