//! Property names and declarations.

use crate::css::values::{Value, ValueView};
use vstd::prelude::*;

verus! {

/// An enumeration of the CSS properties an embedding environment cares about.
///
/// `K` is the keyword type that initial values are drawn from. Property names
/// are compared and copied by value, so they must be `Copy`.
pub trait PropertyName<K>: Sized + Copy {
    /// Whether the property inherits from the parent when it is unset.
    open spec fn inherited(&self) -> bool {
        false
    }

    /// The initial value of the property. It is expected to be a specified
    /// value (not `inherit`, `initial` or `unset`).
    open spec fn initial(&self) -> ValueView<K> {
        ValueView::Unset
    }

    /// Determine if the property is inherited.
    fn is_inherited(&self) -> (r: bool)
        ensures
            r == self.inherited(),
    ;

    /// The initial value of the property.
    fn initial_value(&self) -> (r: Value<K>)
        ensures
            r@ == self.initial(),
    ;

    /// Whether two property names are the same property.
    fn same_property(&self, other: &Self) -> (r: bool)
        ensures
            r == (*self == *other),
    ;
}

/// A property declaration: a name and the value it is set to.
#[derive(Clone, Debug)]
pub struct Property<N, K>(pub N, pub Value<K>);

impl<N, K> Property<N, K> {
    /// Create a new property declaration.
    pub fn new(name: N, value: Value<K>) -> (r: Self)
        ensures
            r.0 == name,
            r.1 == value,
    {
        Property(name, value)
    }
}

} // verus!

