//! Weights, and what weighs messages.
use std::rc::Rc;
use std::sync::Arc;
use vstd::layout::{layout_of_primitives, layout_of_slices, size_of, spec_size_of_val};
use vstd::prelude::*;

verus! {

/// Amounts that can be compared, added and taken away from each other.
pub trait Weight: Sized {
    /// How much it is.
    spec fn amount(&self) -> nat;

    /// The greatest amount there is.
    spec fn limit() -> nat;

    /// No amount is beyond the greatest one.
    proof fn within_limit(&self)
        ensures
            self.amount() <= Self::limit(),
    ;

    /// Whether this is more than the other one.
    fn exceeds(&self, other: &Self) -> (answer: bool)
        ensures
            answer == (self.amount() > other.amount()),
    ;

    /// Whether this and the other one add up to an amount that there is.
    fn has_room_for(&self, other: &Self) -> (answer: bool)
        ensures
            answer == (self.amount() + other.amount() <= Self::limit()),
    ;

    /// Adds the other one to this one.
    fn grow(&mut self, other: Self)
        requires
            old(self).amount() + other.amount() <= Self::limit(),
        ensures
            final(self).amount() == old(self).amount() + other.amount(),
    ;

    /// Takes the other one away from this one.
    fn shrink(&mut self, other: Self)
        requires
            other.amount() <= old(self).amount(),
        ensures
            final(self).amount() == old(self).amount() - other.amount(),
    ;

    /// As much once more.
    fn duplicate(&self) -> (other: Self)
        ensures
            other.amount() == self.amount(),
    ;
}

impl Weight for usize {
    open spec fn amount(&self) -> nat {
        *self as nat
    }

    open spec fn limit() -> nat {
        usize::MAX as nat
    }

    proof fn within_limit(&self) {
    }

    fn exceeds(&self, other: &Self) -> (answer: bool) {
        *self > *other
    }

    fn has_room_for(&self, other: &Self) -> (answer: bool) {
        *other <= usize::MAX - *self
    }

    fn grow(&mut self, other: Self) {
        *self = *self + other;
    }

    fn shrink(&mut self, other: Self) {
        *self = *self - other;
    }

    fn duplicate(&self) -> (other: Self) {
        *self
    }
}

impl Weight for u8 {
    open spec fn amount(&self) -> nat {
        *self as nat
    }

    open spec fn limit() -> nat {
        u8::MAX as nat
    }

    proof fn within_limit(&self) {
    }

    fn exceeds(&self, other: &Self) -> (answer: bool) {
        *self > *other
    }

    fn has_room_for(&self, other: &Self) -> (answer: bool) {
        *other <= u8::MAX - *self
    }

    fn grow(&mut self, other: Self) {
        *self = *self + other;
    }

    fn shrink(&mut self, other: Self) {
        *self = *self - other;
    }

    fn duplicate(&self) -> (other: Self) {
        *self
    }
}

impl Weight for u16 {
    open spec fn amount(&self) -> nat {
        *self as nat
    }

    open spec fn limit() -> nat {
        u16::MAX as nat
    }

    proof fn within_limit(&self) {
    }

    fn exceeds(&self, other: &Self) -> (answer: bool) {
        *self > *other
    }

    fn has_room_for(&self, other: &Self) -> (answer: bool) {
        *other <= u16::MAX - *self
    }

    fn grow(&mut self, other: Self) {
        *self = *self + other;
    }

    fn shrink(&mut self, other: Self) {
        *self = *self - other;
    }

    fn duplicate(&self) -> (other: Self) {
        *self
    }
}

impl Weight for u32 {
    open spec fn amount(&self) -> nat {
        *self as nat
    }

    open spec fn limit() -> nat {
        u32::MAX as nat
    }

    proof fn within_limit(&self) {
    }

    fn exceeds(&self, other: &Self) -> (answer: bool) {
        *self > *other
    }

    fn has_room_for(&self, other: &Self) -> (answer: bool) {
        *other <= u32::MAX - *self
    }

    fn grow(&mut self, other: Self) {
        *self = *self + other;
    }

    fn shrink(&mut self, other: Self) {
        *self = *self - other;
    }

    fn duplicate(&self) -> (other: Self) {
        *self
    }
}

impl Weight for u64 {
    open spec fn amount(&self) -> nat {
        *self as nat
    }

    open spec fn limit() -> nat {
        u64::MAX as nat
    }

    proof fn within_limit(&self) {
    }

    fn exceeds(&self, other: &Self) -> (answer: bool) {
        *self > *other
    }

    fn has_room_for(&self, other: &Self) -> (answer: bool) {
        *other <= u64::MAX - *self
    }

    fn grow(&mut self, other: Self) {
        *self = *self + other;
    }

    fn shrink(&mut self, other: Self) {
        *self = *self - other;
    }

    fn duplicate(&self) -> (other: Self) {
        *self
    }
}

impl Weight for u128 {
    open spec fn amount(&self) -> nat {
        *self as nat
    }

    open spec fn limit() -> nat {
        u128::MAX as nat
    }

    proof fn within_limit(&self) {
    }

    fn exceeds(&self, other: &Self) -> (answer: bool) {
        *self > *other
    }

    fn has_room_for(&self, other: &Self) -> (answer: bool) {
        *other <= u128::MAX - *self
    }

    fn grow(&mut self, other: Self) {
        *self = *self + other;
    }

    fn shrink(&mut self, other: Self) {
        *self = *self - other;
    }

    fn duplicate(&self) -> (other: Self) {
        *self
    }
}

/// An object that produces weights for other objects
pub trait Scale<T: ?Sized> {
    /// The weight of an item.
    type Weight: Weight;

    /// How much the given item weighs.
    ///
    /// An implementation has to define this: the default is one fixed amount for all items. It is
    /// only there for implementations in code that is not verified, which cannot write it down;
    /// these have to weigh an item the same whenever they weigh it.
    open spec fn weight(&self, item: &T) -> nat {
        arbitrary()
    }

    /// Weigh the given item.
    fn weigh(&self, item: &T) -> (weight: Self::Weight)
        ensures
            weight.amount() == self.weight(item),
    ;
}

/// A [`Scale`] based on simple memory size for objects like [`Box`], [`Vec`], or [`Arc`]: an
/// owning object that derefs to a heap object.
#[derive(Copy, Clone, Debug)]
pub struct BoxlikeScale;

/// The sum of a size on the stack and a size on the heap, in so far as it can be told.
pub open spec fn boxlike_weight(stack: nat, heap: nat) -> nat {
    if stack + heap <= usize::MAX {
        stack + heap
    } else {
        usize::MAX as nat
    }
}

impl<U> Scale<Vec<U>> for BoxlikeScale {
    type Weight = usize;

    open spec fn weight(&self, item: &Vec<U>) -> nat {
        boxlike_weight(spec_size_of_val(item), item@.len() * size_of::<U>())
    }

    fn weigh(&self, item: &Vec<U>) -> (weight: usize) {
        broadcast use layout_of_slices;

        std::mem::size_of_val(item).saturating_add(std::mem::size_of_val(item.as_slice()))
    }
}

impl<U: ?Sized> Scale<Box<U>> for BoxlikeScale {
    type Weight = usize;

    open spec fn weight(&self, item: &Box<U>) -> nat {
        boxlike_weight(spec_size_of_val(item), spec_size_of_val(&**item))
    }

    fn weigh(&self, item: &Box<U>) -> (weight: usize) {
        std::mem::size_of_val(item).saturating_add(std::mem::size_of_val(&**item))
    }
}

impl<U: ?Sized> Scale<Arc<U>> for BoxlikeScale {
    type Weight = usize;

    open spec fn weight(&self, item: &Arc<U>) -> nat {
        boxlike_weight(spec_size_of_val(item), spec_size_of_val(&**item))
    }

    fn weigh(&self, item: &Arc<U>) -> (weight: usize) {
        std::mem::size_of_val(item).saturating_add(std::mem::size_of_val(&**item))
    }
}

impl<'a, U: ?Sized> Scale<&'a U> for BoxlikeScale {
    type Weight = usize;

    open spec fn weight(&self, item: &&'a U) -> nat {
        boxlike_weight(spec_size_of_val(item), spec_size_of_val(&**item))
    }

    fn weigh(&self, item: &&'a U) -> (weight: usize) {
        std::mem::size_of_val(item).saturating_add(std::mem::size_of_val(&**item))
    }
}

impl<U: ?Sized> Scale<Rc<U>> for BoxlikeScale {
    type Weight = usize;

    open spec fn weight(&self, item: &Rc<U>) -> nat {
        boxlike_weight(spec_size_of_val(item), spec_size_of_val(&**item))
    }

    fn weigh(&self, item: &Rc<U>) -> (weight: usize) {
        std::mem::size_of_val(item).saturating_add(std::mem::size_of_val(&**item))
    }
}

impl Scale<String> for BoxlikeScale {
    type Weight = usize;

    open spec fn weight(&self, item: &String) -> nat {
        boxlike_weight(spec_size_of_val(item), vstd::utf8::encode_utf8(item@).len())
    }

    fn weigh(&self, item: &String) -> (weight: usize) {
        broadcast use {layout_of_primitives, layout_of_slices};

        let bytes = item.as_str().as_bytes();
        std::mem::size_of_val(item).saturating_add(std::mem::size_of_val(bytes))
    }
}

} // verus!
