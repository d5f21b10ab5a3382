//! Traits: the properties ActionScript 3 classes and instances define.

use crate::avm2::names::{Multiname, MultinameView, QName, QNameView};
use vstd::prelude::*;

verus! {

/// A method body, identified by its index in the runtime's method table.
#[derive(Clone, Copy, Debug, PartialEq, Eq, Structural)]
pub struct Method {
    pub id: u32,
}

/// The default value of a slot or constant.
#[derive(Clone, Debug, PartialEq)]
pub enum ConstValue {
    Undefined,
    Null,
    Bool(bool),
    Integer(i32),
    Unsigned(u32),
    /// A number, as the bit pattern of its `f64` value.
    Number(u64),
    String(String),
}

/// The mathematical form of a [`ConstValue`].
pub ghost enum ConstValueView {
    Undefined,
    Null,
    Bool(bool),
    Integer(i32),
    Unsigned(u32),
    Number(u64),
    String(Seq<char>),
}

impl View for ConstValue {
    type V = ConstValueView;

    open spec fn view(&self) -> ConstValueView {
        match self {
            ConstValue::Undefined => ConstValueView::Undefined,
            ConstValue::Null => ConstValueView::Null,
            ConstValue::Bool(b) => ConstValueView::Bool(*b),
            ConstValue::Integer(i) => ConstValueView::Integer(*i),
            ConstValue::Unsigned(u) => ConstValueView::Unsigned(*u),
            ConstValue::Number(n) => ConstValueView::Number(*n),
            ConstValue::String(s) => ConstValueView::String(s@),
        }
    }
}

impl ConstValue {
    /// A copy of the value.
    pub fn duplicate(&self) -> (r: ConstValue)
        ensures
            r@ == self@,
    {
        match self {
            ConstValue::Undefined => ConstValue::Undefined,
            ConstValue::Null => ConstValue::Null,
            ConstValue::Bool(b) => ConstValue::Bool(*b),
            ConstValue::Integer(i) => ConstValue::Integer(*i),
            ConstValue::Unsigned(u) => ConstValue::Unsigned(*u),
            ConstValue::Number(n) => ConstValue::Number(*n),
            ConstValue::String(s) => ConstValue::String(s.clone()),
        }
    }
}

/// The optional default value, copied.
fn duplicate_default(v: &Option<ConstValue>) -> (r: Option<ConstValue>)
    ensures
        option_view(r) == option_view(*v),
{
    match v {
        Some(c) => Some(c.duplicate()),
        None => None,
    }
}

/// The view of an optional default value.
pub open spec fn option_view(v: Option<ConstValue>) -> Option<ConstValueView> {
    match v {
        Some(c) => Some(c@),
        None => None,
    }
}

/// What a trait defines.
#[derive(Clone, Debug, PartialEq)]
pub enum TraitKind {
    Slot { slot_id: u32, slot_type: Multiname, default_value: Option<ConstValue> },
    Method { disp_id: u32, method: Method },
    Getter { disp_id: u32, method: Method },
    Setter { disp_id: u32, method: Method },
    Class { slot_id: u32, class: u32 },
    Function { slot_id: u32, function: Method },
    Const { slot_id: u32, slot_type: Multiname, default_value: Option<ConstValue> },
}

/// The mathematical form of a [`TraitKind`].
pub ghost enum TraitKindView {
    Slot { slot_id: u32, slot_type: MultinameView, default_value: Option<ConstValueView> },
    Method { disp_id: u32, method: Method },
    Getter { disp_id: u32, method: Method },
    Setter { disp_id: u32, method: Method },
    Class { slot_id: u32, class: u32 },
    Function { slot_id: u32, function: Method },
    Const { slot_id: u32, slot_type: MultinameView, default_value: Option<ConstValueView> },
}

impl View for TraitKind {
    type V = TraitKindView;

    open spec fn view(&self) -> TraitKindView {
        match self {
            TraitKind::Slot { slot_id, slot_type, default_value } => TraitKindView::Slot {
                slot_id: *slot_id,
                slot_type: slot_type@,
                default_value: option_view(*default_value),
            },
            TraitKind::Method { disp_id, method } => TraitKindView::Method { disp_id: *disp_id, method: *method },
            TraitKind::Getter { disp_id, method } => TraitKindView::Getter { disp_id: *disp_id, method: *method },
            TraitKind::Setter { disp_id, method } => TraitKindView::Setter { disp_id: *disp_id, method: *method },
            TraitKind::Class { slot_id, class } => TraitKindView::Class { slot_id: *slot_id, class: *class },
            TraitKind::Function { slot_id, function } => TraitKindView::Function {
                slot_id: *slot_id,
                function: *function,
            },
            TraitKind::Const { slot_id, slot_type, default_value } => TraitKindView::Const {
                slot_id: *slot_id,
                slot_type: slot_type@,
                default_value: option_view(*default_value),
            },
        }
    }
}

impl TraitKind {
    /// A copy of the trait kind.
    pub fn duplicate(&self) -> (r: TraitKind)
        ensures
            r@ == self@,
    {
        match self {
            TraitKind::Slot { slot_id, slot_type, default_value } => TraitKind::Slot {
                slot_id: *slot_id,
                slot_type: slot_type.duplicate(),
                default_value: duplicate_default(default_value),
            },
            TraitKind::Method { disp_id, method } => TraitKind::Method { disp_id: *disp_id, method: *method },
            TraitKind::Getter { disp_id, method } => TraitKind::Getter { disp_id: *disp_id, method: *method },
            TraitKind::Setter { disp_id, method } => TraitKind::Setter { disp_id: *disp_id, method: *method },
            TraitKind::Class { slot_id, class } => TraitKind::Class { slot_id: *slot_id, class: *class },
            TraitKind::Function { slot_id, function } => TraitKind::Function {
                slot_id: *slot_id,
                function: *function,
            },
            TraitKind::Const { slot_id, slot_type, default_value } => TraitKind::Const {
                slot_id: *slot_id,
                slot_type: slot_type.duplicate(),
                default_value: duplicate_default(default_value),
            },
        }
    }
}

/// A property defined by a class or on its instances.
#[derive(Clone, Debug, PartialEq)]
pub struct Trait {
    name: QName,
    is_final: bool,
    is_override: bool,
    kind: TraitKind,
}

/// The mathematical form of a [`Trait`].
pub ghost struct TraitView {
    pub name: QNameView,
    pub is_final: bool,
    pub is_override: bool,
    pub kind: TraitKindView,
}

impl View for Trait {
    type V = TraitView;

    closed spec fn view(&self) -> TraitView {
        TraitView { name: self.name@, is_final: self.is_final, is_override: self.is_override, kind: self.kind@ }
    }
}

impl Trait {
    /// A trait of the given kind; not final, not an override.
    pub fn new(name: QName, kind: TraitKind) -> (r: Trait)
        ensures
            r@ == (TraitView { name: name@, is_final: false, is_override: false, kind: kind@ }),
    {
        Trait { name, is_final: false, is_override: false, kind }
    }

    /// A trait with explicit final and override attributes.
    pub fn with_attributes(name: QName, is_final: bool, is_override: bool, kind: TraitKind) -> (r: Trait)
        ensures
            r@ == (TraitView { name: name@, is_final, is_override, kind: kind@ }),
    {
        Trait { name, is_final, is_override, kind }
    }

    /// A constant trait in slot 0.
    pub fn from_const(name: QName, slot_type: Multiname, default_value: Option<ConstValue>) -> (r: Trait)
        ensures
            r@ == (TraitView {
                name: name@,
                is_final: false,
                is_override: false,
                kind: TraitKindView::Const {
                    slot_id: 0,
                    slot_type: slot_type@,
                    default_value: option_view(default_value),
                },
            }),
    {
        Trait::new(name, TraitKind::Const { slot_id: 0, slot_type, default_value })
    }

    /// A method trait with dispatch id 0.
    pub fn from_method(name: QName, method: Method) -> (r: Trait)
        ensures
            r@ == (TraitView {
                name: name@,
                is_final: false,
                is_override: false,
                kind: TraitKindView::Method { disp_id: 0, method },
            }),
    {
        Trait::new(name, TraitKind::Method { disp_id: 0, method })
    }

    /// A getter trait with dispatch id 0.
    pub fn from_getter(name: QName, method: Method) -> (r: Trait)
        ensures
            r@ == (TraitView {
                name: name@,
                is_final: false,
                is_override: false,
                kind: TraitKindView::Getter { disp_id: 0, method },
            }),
    {
        Trait::new(name, TraitKind::Getter { disp_id: 0, method })
    }

    /// A setter trait with dispatch id 0.
    pub fn from_setter(name: QName, method: Method) -> (r: Trait)
        ensures
            r@ == (TraitView {
                name: name@,
                is_final: false,
                is_override: false,
                kind: TraitKindView::Setter { disp_id: 0, method },
            }),
    {
        Trait::new(name, TraitKind::Setter { disp_id: 0, method })
    }

    /// The name of the trait.
    pub fn name(&self) -> (r: &QName)
        ensures
            r@ == self@.name,
    {
        &self.name
    }

    /// What the trait defines.
    pub fn kind(&self) -> (r: &TraitKind)
        ensures
            r@ == self@.kind,
    {
        &self.kind
    }

    /// Whether the trait may not be overridden.
    pub fn is_final(&self) -> (r: bool)
        ensures
            r == self@.is_final,
    {
        self.is_final
    }

    /// Whether the trait overrides an inherited one.
    pub fn is_override(&self) -> (r: bool)
        ensures
            r == self@.is_override,
    {
        self.is_override
    }

    /// A copy of the trait.
    pub fn duplicate(&self) -> (r: Trait)
        ensures
            r@ == self@,
    {
        Trait {
            name: self.name.duplicate(),
            is_final: self.is_final,
            is_override: self.is_override,
            kind: self.kind.duplicate(),
        }
    }
}

} // verus!
