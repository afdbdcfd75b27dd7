//! Properties of `SmallVec` that must hold for every input. Each property is
//! a function from concrete, owned inputs to a `PropertyResult`; its contract
//! states which results it can give.

use crate::pow2::max_usize_power_of_two;
use crate::small_vec::SmallVec;
use crate::text::{
    append_number, decimal_text, i64_list_text, number_between, u16_list_text, u8_list_text,
};
use vstd::prelude::*;

verus! {

/// A new empty vector made with `Vec::with_capacity(0)`, and its
/// `capacity()`. The standard library documents that a vector made with
/// capacity zero does not allocate, and that a vector allocates exactly when
/// `size_of::<T>() * capacity()` is not zero; for `u16` the capacity is
/// therefore zero.
///
/// Both calls stand in this one item because no specification of a
/// vector's capacity exists to carry that fact from one call to the other:
/// the capacity is read here, from the vector just made, and the fact is
/// stated of the two together.
#[verifier::external_body]
fn unallocated_u16_vec() -> (made: (Vec<u16>, usize))
    ensures
        made.0@ == Seq::<u16>::empty(),
        made.1 == 0,
{
    let v: Vec<u16> = Vec::with_capacity(0);
    let capacity = v.capacity();
    (v, capacity)
}

/// What one run of a property found.
#[derive(Debug)]
pub enum PropertyResult {
    Pass,
    Fail(String),
    Discard,
}

/// `SmallVec::<u8, N>::leak` is refused on an inline vector (there is no
/// allocation to give away), and on a spilled one hands out exactly the
/// vector's bytes.
///
/// The vector is built inline (with `new` and `push`) when the input fits in
/// `N`, and from a `Vec` (so spilled) otherwise. On the inline path `leak`'s
/// precondition rules the call out, so the property holds there; on the
/// spilled path the leaked bytes are compared with the input.
pub fn property_leak_inline_panics(values: Vec<u8>, inline_cap: u8) -> (r: PropertyResult)
    ensures
        r == PropertyResult::Pass,
{
    let cap: u8 = match inline_cap % 3 {
        0 => 1u8,
        1 => 4u8,
        _ => 16u8,
    };
    match cap {
        1 => property_leak_inline_panics_n::<1>(values),
        4 => property_leak_inline_panics_n::<4>(values),
        _ => property_leak_inline_panics_n::<16>(values),
    }
}

fn property_leak_inline_panics_n<const N: usize>(values: Vec<u8>) -> (r: PropertyResult)
    ensures
        r == PropertyResult::Pass,
{
    let n = values.len();
    let v: SmallVec<u8, N> = if n <= N {
        let mut sv: SmallVec<u8, N> = SmallVec::new();
        let mut i: usize = 0;
        while i < n
            invariant
                n == values@.len(),
                n <= N,
                i <= n,
                sv.well_formed(),
                !sv.is_spilled(),
                sv@ == values@.take(i as int),
            decreases n - i,
        {
            proof {
                sv.lemma_capacity();
            }
            sv.push(values[i]);
            assert(values@.take(i + 1) =~= values@.take(i as int).push(values@[i as int]));
            i += 1;
        }
        assert(values@.take(n as int) =~= values@);
        sv
    } else {
        let copied = values.clone();
        assert(copied@ =~= values@);
        SmallVec::from_vec(copied)
    };
    if !v.spilled() {
        return PropertyResult::Pass;
    }
    let slice: &mut [u8] = v.leak();
    let copy: Vec<u8> = vstd::slice::slice_to_vec(slice);
    let same = copy == values;
    if same {
        PropertyResult::Pass
    } else {
        let mut message = number_between("leak on spilled SmallVec<u8, ", N, "> returned wrong bytes: ");
        message.append(u8_list_text(copy.as_slice()).as_str());
        message.append(" vs input ");
        message.append(u8_list_text(values.as_slice()).as_str());
        PropertyResult::Fail(message)
    }
}

/// After `v.append(&mut other)`, `v.len()` is the sum of the two lengths
/// before the call, `other` is empty, and every element is visible: `v`
/// holds the elements of `a` followed by those of `b`.
pub fn property_append_preserves_length(a: Vec<i64>, b: Vec<i64>) -> (r: PropertyResult)
    requires
        a@.len() + b@.len() <= max_usize_power_of_two(),
    ensures
        r == PropertyResult::Pass,
{
    let copied_a = a.clone();
    let copied_b = b.clone();
    assert(copied_a@ =~= a@);
    assert(copied_b@ =~= b@);
    let mut va: SmallVec<i64, 4> = SmallVec::from_vec(copied_a);
    let mut vb: SmallVec<i64, 4> = SmallVec::from_vec(copied_b);
    let expected_len = a.len() + b.len();
    va.append(&mut vb);
    if va.len() != expected_len {
        let mut message = number_between("append len mismatch: got ", va.len(), ", expected ");
        append_number(&mut message, expected_len);
        return PropertyResult::Fail(message);
    }
    if vb.len() != 0 {
        return PropertyResult::Fail(
            number_between("append did not drain other: other.len()=", vb.len(), ""),
        );
    }
    let collected: Vec<i64> = vstd::slice::slice_to_vec(va.as_slice());
    if collected.len() != expected_len {
        let mut message = number_between("append iter count ", collected.len(), " != expected ");
        append_number(&mut message, expected_len);
        return PropertyResult::Fail(message);
    }
    let mut concat = a.clone();
    concat.extend_from_slice(b.as_slice());
    assert(concat@ =~= a@ + b@);
    let same = collected == concat;
    if !same {
        let mut message = String::from_str("append content mismatch: got ");
        message.append(i64_list_text(collected.as_slice()).as_str());
        message.append(", expected ");
        message.append(i64_list_text(concat.as_slice()).as_str());
        return PropertyResult::Fail(message);
    }
    PropertyResult::Pass
}

/// `SmallVec::from_vec(Vec::with_capacity(0))` must give a well-formed,
/// inline, empty vector that stays inline under `shrink_to_fit` and then
/// takes every pushed element back in order.
///
/// The source vector is made with capacity zero, so it has no allocation and
/// `from_vec` (which reads that capacity and hands it to
/// `from_vec_with_capacity`) gives an inline vector. The checks that follow
/// are `property_from_vec_zero_capacity_given`.
pub fn property_from_vec_zero_capacity(push_after: Vec<u16>) -> (r: PropertyResult)
    requires
        push_after@.len() <= max_usize_power_of_two(),
    ensures
        r == PropertyResult::Pass,
{
    let (src, capacity) = unallocated_u16_vec();
    let sv: SmallVec<u16, 2> = SmallVec::from_vec_with_capacity(src, capacity);
    property_from_vec_zero_capacity_given(sv, push_after)
}

/// The message of the first check of `property_from_vec_zero_capacity`:
/// the vector built from an empty `Vec` is spilled, with these length and
/// capacity.
pub open spec fn zero_capacity_spilled_message(len: nat, capacity: nat) -> Seq<char> {
    "SmallVec::from_vec(Vec::with_capacity(0)) was spilled (len="@ + decimal_text(len) + ", cap="@
        + decimal_text(capacity) + ")"@
}

/// The message of the second check of `property_from_vec_zero_capacity`:
/// the vector built from an empty `Vec` holds this many elements.
pub open spec fn zero_capacity_len_message(len: nat) -> Seq<char> {
    "SmallVec::from_vec(Vec::with_capacity(0)).len()="@ + decimal_text(len) + ""@
}

/// The checks of `property_from_vec_zero_capacity` on the vector that
/// `SmallVec::from_vec` gave: they pass exactly when that vector is inline
/// and empty.
pub fn property_from_vec_zero_capacity_given(sv: SmallVec<u16, 2>, push_after: Vec<u16>) -> (r:
    PropertyResult)
    requires
        sv.well_formed(),
        push_after@.len() <= max_usize_power_of_two(),
    ensures
        r is Pass <==> !sv.is_spilled() && sv@.len() == 0,
        sv.is_spilled() ==> r is Fail && r->Fail_0@ == zero_capacity_spilled_message(
            sv@.len(),
            sv.capacity_spec(),
        ),
        !sv.is_spilled() && sv@.len() != 0 ==> r is Fail && r->Fail_0@
            == zero_capacity_len_message(sv@.len()),
{
    let mut sv = sv;
    if sv.spilled() {
        let mut message = number_between(
            "SmallVec::from_vec(Vec::with_capacity(0)) was spilled (len=",
            sv.len(),
            ", cap=",
        );
        append_number(&mut message, sv.capacity());
        message.append(")");
        assert(message@ =~= zero_capacity_spilled_message(sv@.len(), sv.capacity_spec()));
        return PropertyResult::Fail(message);
    }
    if sv.len() != 0 {
        return PropertyResult::Fail(
            number_between("SmallVec::from_vec(Vec::with_capacity(0)).len()=", sv.len(), ""),
        );
    }
    sv.shrink_to_fit();
    if sv.spilled() {
        return PropertyResult::Fail(
            String::from_str("shrink_to_fit left an empty SmallVec spilled"),
        );
    }
    let n = push_after.len();
    let mut i: usize = 0;
    while i < n
        invariant
            n == push_after@.len(),
            n <= max_usize_power_of_two(),
            i <= n,
            sv.well_formed(),
            sv@ == push_after@.take(i as int),
        decreases n - i,
    {
        sv.push(push_after[i]);
        assert(push_after@.take(i + 1) =~= push_after@.take(i as int).push(push_after@[i as int]));
        i += 1;
    }
    assert(push_after@.take(n as int) =~= push_after@);
    if sv.len() != push_after.len() {
        let mut message = number_between("after pushes: len=", sv.len(), ", expected ");
        append_number(&mut message, push_after.len());
        return PropertyResult::Fail(message);
    }
    let collected: Vec<u16> = vstd::slice::slice_to_vec(sv.as_slice());
    let same = collected == push_after;
    if !same {
        let mut message = String::from_str("content mismatch: got ");
        message.append(u16_list_text(collected.as_slice()).as_str());
        message.append(", expected ");
        message.append(u16_list_text(push_after.as_slice()).as_str());
        return PropertyResult::Fail(message);
    }
    PropertyResult::Pass
}

} // verus!
