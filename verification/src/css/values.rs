//! CSS value types.

use vstd::prelude::*;

verus! {

/// All valid CSS unit types.
#[derive(Clone, Copy, Debug, PartialEq, Eq, Structural)]
pub enum Unit {
    /// Virtual pixels on the stage, relative to the hosting object's transform.
    Px,
    /// Units of em-height.
    Em,
    /// Units of ex-height.
    Ex,
    /// Units of one percent, stored in the range [0, 1].
    Percent,
}

/// All values a property can be assigned.
///
/// `K` is the keyword type of the embedding environment. Real quantities are
/// carried as the IEEE-754 bit pattern of their `f32` value: the engine only
/// moves them around and never computes with them.
#[derive(Clone, Debug, PartialEq)]
pub enum Value<K> {
    /// Take the value from the parent's computed style.
    Inherit,
    /// Take the property's initial value.
    Initial,
    /// Not specified: inherited properties inherit, the others are initial.
    Unset,
    /// A CSS keyword.
    Keyword(K),
    /// A quoted string.
    Str(String),
    /// A URL to an external resource.
    Url(String),
    /// A dimensionless integer.
    Integer(i32),
    /// A dimensionless real, as `f32` bits.
    Number(u32),
    /// A dimensioned real quantity, as `f32` bits and a unit.
    Dimension(u32, Unit),
    /// An RGBA color; each component is the bit pattern of an `f32` in [0, 1].
    Color(u32, u32, u32, u32),
    /// A list of font families, the first one that resolves is used.
    Font(Vec<String>),
}

/// The mathematical form of a [`Value`]: strings become character sequences.
pub ghost enum ValueView<K> {
    Inherit,
    Initial,
    Unset,
    Keyword(K),
    Str(Seq<char>),
    Url(Seq<char>),
    Integer(i32),
    Number(u32),
    Dimension(u32, Unit),
    Color(u32, u32, u32, u32),
    Font(Seq<Seq<char>>),
}

impl<K> ValueView<K> {
    /// Whether the value is an actual value rather than one of the cascade
    /// directives `inherit`, `initial` or `unset`.
    pub open spec fn is_specified(self) -> bool {
        !(self is Inherit || self is Initial || self is Unset)
    }
}

impl<K> View for Value<K> {
    type V = ValueView<K>;

    open spec fn view(&self) -> ValueView<K> {
        match self {
            Value::Inherit => ValueView::Inherit,
            Value::Initial => ValueView::Initial,
            Value::Unset => ValueView::Unset,
            Value::Keyword(k) => ValueView::Keyword(*k),
            Value::Str(s) => ValueView::Str(s@),
            Value::Url(s) => ValueView::Url(s@),
            Value::Integer(i) => ValueView::Integer(*i),
            Value::Number(n) => ValueView::Number(*n),
            Value::Dimension(n, u) => ValueView::Dimension(*n, *u),
            Value::Color(r, g, b, a) => ValueView::Color(*r, *g, *b, *a),
            Value::Font(fonts) => ValueView::Font(fonts@.map_values(|f: String| f@)),
        }
    }
}

impl<K> Value<K> {
    /// Executable form of `ValueView::is_specified`.
    pub fn specified(&self) -> (r: bool)
        ensures
            r == self@.is_specified(),
    {
        match self {
            Value::Inherit | Value::Initial | Value::Unset => false,
            _ => true,
        }
    }
}

impl<K: Copy> Value<K> {
    /// A copy of the value.
    pub fn duplicate(&self) -> (r: Value<K>)
        ensures
            r@ == self@,
    {
        match self {
            Value::Inherit => Value::Inherit,
            Value::Initial => Value::Initial,
            Value::Unset => Value::Unset,
            Value::Keyword(k) => Value::Keyword(*k),
            Value::Str(s) => Value::Str(s.clone()),
            Value::Url(s) => Value::Url(s.clone()),
            Value::Integer(i) => Value::Integer(*i),
            Value::Number(n) => Value::Number(*n),
            Value::Dimension(n, u) => Value::Dimension(*n, *u),
            Value::Color(r, g, b, a) => Value::Color(*r, *g, *b, *a),
            Value::Font(fonts) => {
                let copy = copy_strings(fonts);
                assert(copy@.map_values(|f: String| f@) =~= fonts@.map_values(|f: String| f@));
                Value::Font(copy)
            },
        }
    }
}

/// An element-wise copy of a list of strings.
pub fn copy_strings(v: &Vec<String>) -> (r: Vec<String>)
    ensures
        r@ == v@,
{
    let mut out: Vec<String> = Vec::new();
    let mut i: usize = 0;
    while i < v.len()
        invariant
            i <= v.len(),
            out@ == v@.subrange(0, i as int),
        decreases v.len() - i,
    {
        out.push(v[i].clone());
        i = i + 1;
    }
    assert(v@.subrange(0, v.len() as int) =~= v@);
    out
}

impl<K> From<K> for Value<K> {
    fn from(keyword: K) -> (r: Value<K>) {
        Value::Keyword(keyword)
    }
}

impl<K> vstd::std_specs::convert::FromSpecImpl<K> for Value<K> {
    open spec fn obeys_from_spec() -> bool {
        true
    }

    open spec fn from_spec(keyword: K) -> Value<K> {
        Value::Keyword(keyword)
    }
}

} // verus!
