//! The CSS property names and keywords used for HTML text.

use crate::css::computed::ComputedStyle;
use crate::css::property::{Property, PropertyName};
use crate::css::stylesheet::{Rule, Stylesheet};
use crate::css::values::{Value, ValueView};
use vstd::prelude::*;

verus! {

/// The CSS properties the HTML engine cares about. Composite properties are
/// split into these at parse time; any other property is dropped.
#[derive(Clone, Copy, Debug, PartialEq, Eq, Hash, Structural)]
pub enum CSSName {
    Display,
    FontFamily,
    FontSize,
    FontVariant,
    FontWeight,
}

/// The keywords the HTML engine recognizes.
#[derive(Clone, Copy, Debug, PartialEq, Eq, Hash, Structural)]
pub enum CSSKeyword {
    /// `display: block`
    Block,
    /// `display: inline`
    Inline,
    /// `display: inline-block`
    InlineBlock,
    /// `font-size: medium`
    Medium,
    /// `font-variant: normal`, `font-weight: normal` etc
    Normal,
}

impl PropertyName<CSSKeyword> for CSSName {
    open spec fn inherited(&self) -> bool {
        !(*self is Display)
    }

    open spec fn initial(&self) -> ValueView<CSSKeyword> {
        match self {
            CSSName::Display => ValueView::Keyword(CSSKeyword::Inline),
            CSSName::FontFamily => ValueView::Font(Seq::empty()),
            CSSName::FontSize => ValueView::Keyword(CSSKeyword::Medium),
            CSSName::FontVariant => ValueView::Keyword(CSSKeyword::Normal),
            CSSName::FontWeight => ValueView::Keyword(CSSKeyword::Normal),
        }
    }

    fn is_inherited(&self) -> (r: bool) {
        match self {
            CSSName::Display => false,
            CSSName::FontFamily => true,
            CSSName::FontSize => true,
            CSSName::FontVariant => true,
            CSSName::FontWeight => true,
        }
    }

    fn initial_value(&self) -> (r: Value<CSSKeyword>) {
        match self {
            CSSName::Display => Value::Keyword(CSSKeyword::Inline),
            CSSName::FontFamily => {
                let v: Vec<String> = Vec::new();
                proof {
                    assert(v@.map_values(|f: String| f@) =~= Seq::<Seq<char>>::empty());
                }
                Value::Font(v)
            },
            CSSName::FontSize => Value::Keyword(CSSKeyword::Medium),
            CSSName::FontVariant => Value::Keyword(CSSKeyword::Normal),
            CSSName::FontWeight => Value::Keyword(CSSKeyword::Normal),
        }
    }

    fn same_property(&self, other: &Self) -> (r: bool) {
        *self == *other
    }
}

/// Every HTML property has a specified initial value.
pub proof fn law_css_initial_values_specified()
    ensures
        crate::css::computed::initial_values_specified::<CSSName, CSSKeyword>(),
{
}

/// A stylesheet for HTML text.
pub type CSSStylesheet = Stylesheet<CSSName, CSSKeyword>;

/// A rule for HTML text.
pub type CSSRule = Rule<CSSName, CSSKeyword>;

/// A property declaration for HTML text.
pub type CSSProperty = Property<CSSName, CSSKeyword>;

/// A property value for HTML text.
pub type CSSValue = Value<CSSKeyword>;

/// A computed style for HTML text.
pub type CSSComputedStyle = ComputedStyle<CSSName, CSSKeyword>;

} // verus!
