//! The capabilities that rules ask of the values they read, and the interface
//! of a compiled validator.
use crate::error::ValidationResult;
use vstd::prelude::*;

verus! {

/// A validator of records of type `T`: it reads an instance and reports every
/// failure it finds.
pub trait Validator<T> {
    /// Validates `instance`.
    fn validate(&self, instance: &T) -> ValidationResult;
}

/// Whether `result` is what `validator` reports of `instance`.
pub open spec fn validates<T, W: Validator<T> + ?Sized>(
    validator: &W,
    instance: &T,
    result: ValidationResult,
) -> bool {
    call_ensures(W::validate, (validator, instance), result)
}

/// A value that the numeric checks can compare: a whole number.
pub trait Numeric {
    /// The number that the value stands for. An implementor says what it is;
    /// where none does, nothing is known of it.
    open spec fn number(&self) -> int {
        arbitrary()
    }

    /// The number, in a type wide enough for every implementor's range.
    fn to_i128(&self) -> (n: i128)
        ensures
            n == self.number(),
    ;
}

impl Numeric for i8 {
    open spec fn number(&self) -> int {
        *self as int
    }

    fn to_i128(&self) -> (n: i128) {
        *self as i128
    }
}

impl Numeric for i16 {
    open spec fn number(&self) -> int {
        *self as int
    }

    fn to_i128(&self) -> (n: i128) {
        *self as i128
    }
}

impl Numeric for i32 {
    open spec fn number(&self) -> int {
        *self as int
    }

    fn to_i128(&self) -> (n: i128) {
        *self as i128
    }
}

impl Numeric for i64 {
    open spec fn number(&self) -> int {
        *self as int
    }

    fn to_i128(&self) -> (n: i128) {
        *self as i128
    }
}

impl Numeric for u8 {
    open spec fn number(&self) -> int {
        *self as int
    }

    fn to_i128(&self) -> (n: i128) {
        *self as i128
    }
}

impl Numeric for u16 {
    open spec fn number(&self) -> int {
        *self as int
    }

    fn to_i128(&self) -> (n: i128) {
        *self as i128
    }
}

impl Numeric for u32 {
    open spec fn number(&self) -> int {
        *self as int
    }

    fn to_i128(&self) -> (n: i128) {
        *self as i128
    }
}

impl Numeric for u64 {
    open spec fn number(&self) -> int {
        *self as int
    }

    fn to_i128(&self) -> (n: i128) {
        *self as i128
    }
}

/// A value that may be absent.
pub trait OptionLike {
    /// Whether the value is absent. An implementor says what it is; where
    /// none does, nothing is known of it.
    open spec fn absent(&self) -> bool {
        arbitrary()
    }

    /// Whether the value is absent.
    fn is_none(&self) -> (none: bool)
        ensures
            none == self.absent(),
    ;
}

impl<T> OptionLike for Option<T> {
    open spec fn absent(&self) -> bool {
        self is None
    }

    fn is_none(&self) -> (none: bool) {
        Option::is_none(self)
    }
}

} // verus!
