//! CSS evaluation engine.
//!
//! The engine is generic over an enumeration of property names and an
//! enumeration of keywords.

pub mod property;
pub mod specificity;
pub mod values;
pub mod computed;
pub mod combinators;
pub mod stylesheet;
