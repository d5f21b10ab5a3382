//! The user-agent stylesheet.

use crate::css::combinators::Combinator;
use crate::css::property::Property;
use crate::css::values::{Value, ValueView};
use crate::html::css_types::{CSSKeyword, CSSName, CSSRule, CSSStylesheet};
use vstd::prelude::*;

verus! {

/// The rule `tag { display: keyword }` as the user-agent stylesheet holds it.
pub open spec fn is_display_rule(rule: CSSRule, tag: Seq<char>, keyword: CSSKeyword) -> bool {
    &&& rule.selector().len() == 1
    &&& rule.selector()[0] matches Combinator::IsElement(t) && t@ == tag
    &&& rule.declarations().len() == 1
    &&& rule.declarations()[0].0.0 == CSSName::Display
    &&& rule.declarations()[0].0.1@ == ValueView::<CSSKeyword>::Keyword(keyword)
    &&& !rule.declarations()[0].1
}

/// A rule `tag { display: keyword }`.
fn display_rule(tag: &str, keyword: CSSKeyword) -> (r: CSSRule)
    ensures
        r.wf(),
        r.index() == 0,
        is_display_rule(r, tag@, keyword),
{
    let mut combinators: Vec<Combinator> = Vec::new();
    combinators.push(Combinator::IsElement(String::from_str(tag)));
    let mut rule = CSSRule::from_combinators(combinators);
    rule.add_property(Property::new(CSSName::Display, Value::Keyword(keyword)), false);
    rule
}

/// Construct the user-agent stylesheet: paragraphs are blocks and images
/// are inline blocks.
pub fn ua_stylesheet() -> (r: CSSStylesheet)
    ensures
        r.wf(),
        r.rules().len() == 2,
        is_display_rule(r.rules()[0], "p"@, CSSKeyword::Block),
        is_display_rule(r.rules()[1], "img"@, CSSKeyword::InlineBlock),
{
    let mut stylesheet = CSSStylesheet::new();
    let paragraph_rule = display_rule("p", CSSKeyword::Block);
    stylesheet.append_rule(paragraph_rule);
    let img_rule = display_rule("img", CSSKeyword::InlineBlock);
    stylesheet.append_rule(img_rule);
    stylesheet
}

} // verus!
