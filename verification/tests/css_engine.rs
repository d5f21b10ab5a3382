//! Selectors, specificity and stylesheets of the CSS engine.

use ruffle_core::css::combinators::{Combinator, StyleNode};
use ruffle_core::css::computed::ComputedStyle;
use ruffle_core::css::property::Property;
use ruffle_core::css::specificity::Specificity;
use ruffle_core::css::stylesheet::{Rule, Stylesheet};
use ruffle_core::css::values::Value;
use ruffle_core::html::css_types::{CSSKeyword, CSSName};
use ruffle_core::html::ua_stylesheet::ua_stylesheet;

struct Elem {
    tag: &'static str,
    class: &'static str,
    id: &'static str,
    parent: Option<usize>,
}

/// body > div.box#main > p, and an img inside the p.
static TREE: [Elem; 4] = [
    Elem { tag: "body", class: "", id: "", parent: None },
    Elem { tag: "div", class: "box", id: "main", parent: Some(0) },
    Elem { tag: "p", class: "", id: "", parent: Some(1) },
    Elem { tag: "img", class: "", id: "", parent: Some(2) },
];

#[derive(Clone, Copy, Debug, PartialEq)]
struct Node(usize);

impl StyleNode for Node {
    fn is_element(&self, tag_name: &str) -> bool {
        TREE[self.0].tag == tag_name
    }

    fn has_class(&self, class: &str) -> bool {
        TREE[self.0].class == class
    }

    fn has_id(&self, id: &str) -> bool {
        TREE[self.0].id == id
    }

    fn parent(&self) -> Option<Self> {
        TREE[self.0].parent.map(Node)
    }
}

#[test]
fn combinators_walk_the_tree() {
    let mut candidates = vec![Node(2)];
    Combinator::Descendent.eval(&mut candidates);
    assert_eq!(candidates, vec![Node(1), Node(0)]);
    Combinator::HasClass("box".to_string()).eval(&mut candidates);
    assert_eq!(candidates, vec![Node(1)]);
    Combinator::Child.eval(&mut candidates);
    assert_eq!(candidates, vec![Node(0)]);
    Combinator::Child.eval(&mut candidates);
    assert_eq!(candidates, Vec::<Node>::new());
}

#[test]
fn specificity_orders_ids_over_classes_over_elements() {
    let element = Specificity::element();
    let class = Specificity::class();
    let id = Specificity::id();
    assert!(element.less_than(&class));
    assert!(class.less_than(&id));
    let many_classes = class.plus(class).plus(class);
    assert!(many_classes.less_than(&id));
    assert_eq!(Combinator::HasId("main".to_string()).specificity(), id);
    assert_eq!(Combinator::Descendent.specificity(), Specificity::zero());
    assert_eq!(element.plus(class), Specificity::from_components(0, 1, 1, 0));
}

#[test]
fn user_agent_stylesheet_displays_blocks() {
    let sheet = ua_stylesheet();
    let paragraph = sheet.compute_styles(Node(2));
    assert_eq!(paragraph.get(&CSSName::Display), Value::Keyword(CSSKeyword::Block));
    let image = sheet.compute_styles(Node(3));
    assert_eq!(image.get(&CSSName::Display), Value::Keyword(CSSKeyword::InlineBlock));
    let div = sheet.compute_styles(Node(1));
    assert_eq!(div.get(&CSSName::Display), Value::Unset);
    assert_eq!(div.get_defined(&CSSName::Display), Value::Keyword(CSSKeyword::Inline));
}

#[test]
fn more_specific_rules_and_important_declarations_win() {
    let mut sheet: Stylesheet<CSSName, CSSKeyword> = Stylesheet::new();
    let mut by_id = Rule::from_combinators(vec![Combinator::HasId("main".to_string())]);
    by_id.add_property(Property::new(CSSName::Display, Value::Keyword(CSSKeyword::Block)), false);
    let mut by_tag = Rule::from_combinators(vec![Combinator::IsElement("div".to_string())]);
    by_tag.add_property(Property::new(CSSName::Display, Value::Keyword(CSSKeyword::InlineBlock)), false);
    by_tag.add_property(Property::new(CSSName::FontSize, Value::Keyword(CSSKeyword::Medium)), true);
    let mut by_class = Rule::from_combinators(vec![Combinator::HasClass("box".to_string())]);
    by_class.add_property(Property::new(CSSName::FontSize, Value::Keyword(CSSKeyword::Normal)), false);
    sheet.append_rule(by_id);
    sheet.append_rule(by_tag);
    sheet.append_rule(by_class);
    let style = sheet.compute_styles(Node(1));
    assert_eq!(style.get(&CSSName::Display), Value::Keyword(CSSKeyword::Block));
    assert_eq!(style.get(&CSSName::FontSize), Value::Keyword(CSSKeyword::Medium));
    let body = sheet.compute_styles(Node(0));
    assert_eq!(body.get(&CSSName::Display), Value::Unset);
}

#[test]
fn cascading_twice_changes_nothing() {
    let mut parent: ComputedStyle<CSSName, CSSKeyword> = ComputedStyle::new();
    parent.add_property(Property::new(CSSName::FontSize, Value::Keyword(CSSKeyword::Normal)));
    parent.cascade(None);
    let mut child: ComputedStyle<CSSName, CSSKeyword> = ComputedStyle::new();
    child.add_property(Property::new(CSSName::Display, Value::Inherit));
    child.cascade(Some(&parent));
    let once = (child.get(&CSSName::Display), child.get(&CSSName::FontSize));
    child.cascade(Some(&parent));
    assert_eq!((child.get(&CSSName::Display), child.get(&CSSName::FontSize)), once);
    assert_eq!(once.1, Value::Keyword(CSSKeyword::Normal));
    assert_eq!(once.0, Value::Keyword(CSSKeyword::Inline));
}
