//! A helper on optional values.
use vstd::prelude::*;

verus! {

/// What optional values can do besides.
pub trait OptionExt<T> {
    /// The optional value.
    spec fn value(&self) -> Option<T>;

    /// Whether there is no value, or one that satisfies `f`.
    fn is_none_or<F: FnOnce(&T) -> bool>(&self, f: F) -> (res: bool)
        requires
            self.value() matches Some(value) ==> call_requires(f, (&value,)),
        ensures
            match self.value() {
                Some(value) => call_ensures(f, (&value,), res),
                None => res,
            },
    ;
}

impl<T> OptionExt<T> for Option<T> {
    open spec fn value(&self) -> Option<T> {
        *self
    }

    fn is_none_or<F: FnOnce(&T) -> bool>(&self, f: F) -> (res: bool) {
        match self {
            None => true,
            Some(value) => f(value),
        }
    }
}

} // verus!
