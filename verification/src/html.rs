//! HTML styling: the property names and keywords the text engine uses, and
//! the user-agent stylesheet.

pub mod css_types;
pub mod ua_stylesheet;
