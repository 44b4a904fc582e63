//! Packing of analytic clip and mask shapes into an instance's four slots.
//!
//! Each GPU instance carries four analytic mask slots. A slot whose opacity is
//! negative is unused (the shader skips it). When a layer has both a mask and
//! a rectangular clip, the clip's occupied slots are moved into the mask's
//! free slots in order; if they do not fit, the two cannot be combined.
use vstd::prelude::*;
use crate::float_bits::{f32_bits_lt, f32_lt, F32_ZERO};

verus! {

/// Number of analytic mask slots per instance.
pub const MASK_SLOTS: usize = 4;

/// One analytic mask slot: its opacity (`f32` bits, negative when unused)
/// and the rest of the packed shape data.
#[derive(Clone, Copy, Debug)]
pub struct MaskSlot<T> {
    pub opacity: u32,
    pub shape: T,
}

pub open spec fn slot_used<T>(slot: MaskSlot<T>) -> bool {
    !f32_bits_lt(slot.opacity, F32_ZERO)
}

/// Index of the first unused slot at or after `from`, if any.
pub open spec fn first_free_from<T>(slots: Seq<MaskSlot<T>>, from: int) -> Option<int>
    decreases slots.len() - from,
{
    if from < 0 || from >= slots.len() {
        None
    } else if !slot_used(slots[from]) {
        Some(from)
    } else {
        first_free_from(slots, from + 1)
    }
}

/// The slots after moving the used slots among the first `count` of
/// `extra` into free slots of `base`, one at a time in order.
pub open spec fn merged_prefix<T>(base: Seq<MaskSlot<T>>, extra: Seq<MaskSlot<T>>, count: int) -> Option<
    Seq<MaskSlot<T>>,
>
    decreases count,
{
    if count <= 0 {
        Some(base)
    } else {
        match merged_prefix(base, extra, count - 1) {
            None => None,
            Some(slots) => if !slot_used(extra[count - 1]) {
                Some(slots)
            } else {
                match first_free_from(slots, 0) {
                    None => None,
                    Some(p) => Some(slots.update(p, extra[count - 1])),
                }
            },
        }
    }
}

pub open spec fn used_count<T>(slots: Seq<MaskSlot<T>>) -> nat
    decreases slots.len(),
{
    if slots.len() == 0 {
        0
    } else {
        used_count(slots.drop_last()) + if slot_used(slots.last()) {
            1nat
        } else {
            0nat
        }
    }
}

fn first_free<T: Copy>(slots: &[MaskSlot<T>; 4]) -> (r: Option<usize>)
    ensures
        r matches Some(p) ==> p < 4 && first_free_from(slots@, 0) == Some(p as int),
        r is None ==> first_free_from(slots@, 0) is None,
{
    let mut i: usize = 0;
    while i < MASK_SLOTS
        invariant
            i <= 4,
            first_free_from(slots@, 0) == first_free_from(slots@, i as int),
        decreases 4 - i,
    {
        if f32_lt(slots[i].opacity, F32_ZERO) {
            return Some(i);
        }
        i = i + 1;
    }
    None
}

/// Move the used slots of `extra` into the free slots of `base`, in order.
/// `None` when they do not all fit.
pub fn merge_gpu_mask_info<T: Copy>(base: [MaskSlot<T>; 4], extra: [MaskSlot<T>; 4]) -> (r: Option<
    [MaskSlot<T>; 4],
>)
    ensures
        r matches Some(slots) ==> merged_prefix(base@, extra@, 4) == Some(slots@),
        r is None ==> merged_prefix(base@, extra@, 4) is None,
{
    let mut slots = base;
    let mut index: usize = 0;
    while index < MASK_SLOTS
        invariant
            index <= 4,
            merged_prefix(base@, extra@, index as int) == Some(slots@),
        decreases 4 - index,
    {
        if !f32_lt(extra[index].opacity, F32_ZERO) {
            match first_free(&slots) {
                None => {
                    proof {
                        lemma_merged_none_absorbs(base@, extra@, index as int + 1);
                    }
                    return None;
                },
                Some(p) => {
                    slots[p] = extra[index];
                },
            }
        }
        index = index + 1;
    }
    Some(slots)
}

proof fn lemma_merged_none_absorbs<T>(base: Seq<MaskSlot<T>>, extra: Seq<MaskSlot<T>>, count: int)
    requires
        1 <= count <= 4,
        merged_prefix(base, extra, count) is None,
    ensures
        merged_prefix(base, extra, 4) is None,
    decreases 4 - count,
{
    if count < 4 {
        lemma_merged_none_absorbs(base, extra, count + 1);
    }
}


proof fn lemma_used_count_bounds<T>(slots: Seq<MaskSlot<T>>)
    ensures
        used_count(slots) <= slots.len(),
        used_count(slots) == slots.len() <==> forall|i: int|
            0 <= i < slots.len() ==> #[trigger] slot_used(slots[i]),
    decreases slots.len(),
{
    if slots.len() > 0 {
        let init = slots.drop_last();
        lemma_used_count_bounds(init);
        if used_count(slots) == slots.len() {
            assert forall|i: int| 0 <= i < slots.len() implies #[trigger] slot_used(slots[i]) by {
                if i < slots.len() - 1 {
                    assert(slot_used(init[i]));
                }
            }
        }
        if forall|i: int| 0 <= i < slots.len() ==> #[trigger] slot_used(slots[i]) {
            assert forall|i: int| 0 <= i < init.len() implies #[trigger] slot_used(init[i]) by {
                assert(slot_used(slots[i]));
            }
            assert(slot_used(slots[slots.len() - 1]));
        }
    }
}

proof fn lemma_first_free<T>(slots: Seq<MaskSlot<T>>, from: int)
    requires
        0 <= from <= slots.len(),
    ensures
        first_free_from(slots, from) is None <==> forall|i: int|
            from <= i < slots.len() ==> #[trigger] slot_used(slots[i]),
        first_free_from(slots, from) matches Some(p) ==> from <= p < slots.len() && !slot_used(
            slots[p],
        ),
    decreases slots.len() - from,
{
    if from < slots.len() {
        lemma_first_free(slots, from + 1);
    }
}

proof fn lemma_used_count_fill<T>(slots: Seq<MaskSlot<T>>, p: int, x: MaskSlot<T>)
    requires
        0 <= p < slots.len(),
        !slot_used(slots[p]),
        slot_used(x),
    ensures
        used_count(slots.update(p, x)) == used_count(slots) + 1,
    decreases slots.len(),
{
    let u = slots.update(p, x);
    if p == slots.len() - 1 {
        assert(u.drop_last() =~= slots.drop_last());
    } else {
        assert(u.drop_last() =~= slots.drop_last().update(p, x));
        lemma_used_count_fill(slots.drop_last(), p, x);
    }
}

/// When the clip and mask slots can be combined: the merge succeeds exactly
/// when the used slots of both fit into the four slots, the result then has
/// that many used slots, and every slot the base already used is kept.
pub proof fn lemma_merge_fits_iff<T>(base: Seq<MaskSlot<T>>, extra: Seq<MaskSlot<T>>, count: int)
    requires
        base.len() == 4,
        extra.len() == 4,
        0 <= count <= 4,
    ensures
        (merged_prefix(base, extra, count) is Some) == (used_count(base) + used_count(
            extra.take(count),
        ) <= 4),
        merged_prefix(base, extra, count) matches Some(slots) ==> {
            &&& slots.len() == 4
            &&& used_count(slots) == used_count(base) + used_count(extra.take(count))
            &&& forall|i: int| 0 <= i < 4 && #[trigger] slot_used(base[i]) ==> slots[i] == base[i]
        },
    decreases count,
{
    lemma_used_count_bounds(base);
    if count == 0 {
        assert(extra.take(0) =~= Seq::<MaskSlot<T>>::empty());
    } else {
        lemma_merge_fits_iff(base, extra, count - 1);
        let e = extra[count - 1];
        assert(extra.take(count).drop_last() =~= extra.take(count - 1));
        assert(extra.take(count).last() == e);
        match merged_prefix(base, extra, count - 1) {
            None => {},
            Some(slots) => {
                if slot_used(e) {
                    lemma_first_free(slots, 0);
                    lemma_used_count_bounds(slots);
                    match first_free_from(slots, 0) {
                        None => {},
                        Some(p) => {
                            lemma_used_count_fill(slots, p, e);
                        },
                    }
                }
            },
        }
    }
}

} // verus!
