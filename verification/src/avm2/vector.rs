//! Storage for AS3 vectors.

use crate::avm2::names::{Namespace, NamespaceView, QName, QNameView};
use crate::avm2::value::{Value, ValueView};
use vstd::prelude::*;

verus! {

/// Why a vector operation failed.
#[derive(Clone, Copy, Debug, PartialEq, Eq, Structural)]
pub enum VectorError {
    /// The vector has a fixed length.
    Fixed,
    /// The position is outside the vector.
    OutOfRange(usize),
}

/// How a value is coerced before it is stored in a vector of a type.
#[derive(Clone, Copy, Debug, PartialEq, Eq, Structural)]
pub enum Coercion {
    ToInt,
    ToUint,
    ToNumber,
    ToString,
    ToBoolean,
    /// Objects must be instances of the type; `undefined` and `null` become
    /// holes.
    ToInstance,
}

/// The name of a public builtin type.
pub open spec fn public_name(name: Seq<char>) -> QNameView {
    QNameView { ns: NamespaceView::Package(Seq::empty()), name }
}

/// The coercion for values stored in a vector of the named type.
pub open spec fn coercion_for(ty_name: QNameView) -> Coercion {
    if ty_name == public_name("int"@) {
        Coercion::ToInt
    } else if ty_name == public_name("uint"@) {
        Coercion::ToUint
    } else if ty_name == public_name("Number"@) {
        Coercion::ToNumber
    } else if ty_name == public_name("String"@) {
        Coercion::ToString
    } else if ty_name == public_name("Boolean"@) {
        Coercion::ToBoolean
    } else {
        Coercion::ToInstance
    }
}

/// The value a hole in a vector of the named type reads as.
pub open spec fn default_for(ty_name: QNameView) -> ValueView {
    if ty_name == public_name("int"@) {
        ValueView::Integer(0)
    } else if ty_name == public_name("uint"@) {
        ValueView::Unsigned(0)
    } else if ty_name == public_name("Number"@) {
        ValueView::Number(0)
    } else {
        ValueView::Null
    }
}

/// The view of a stored slot: a value or a hole.
pub open spec fn slot_view(v: Option<Value>) -> Option<ValueView> {
    match v {
        Some(x) => Some(x@),
        None => None,
    }
}

/// The vector storage of a vector object.
///
/// Values are restricted to one type, the vector's type parameter; holes
/// read as that type's default value. A vector may be fixed, in which case
/// its length cannot change.
#[derive(Clone, Debug)]
pub struct VectorStorage {
    storage: Vec<Option<Value>>,
    is_fixed: bool,
    value_type: QName,
}

/// The mathematical form of a [`VectorStorage`].
pub ghost struct VectorStorageView {
    pub storage: Seq<Option<ValueView>>,
    pub is_fixed: bool,
    pub value_type: QNameView,
}

impl View for VectorStorage {
    type V = VectorStorageView;

    closed spec fn view(&self) -> VectorStorageView {
        VectorStorageView {
            storage: self.storage@.map_values(|v: Option<Value>| slot_view(v)),
            is_fixed: self.is_fixed,
            value_type: self.value_type@,
        }
    }
}

/// Whether a name is the public builtin type `name`.
fn is_public_type(q: &QName, name: &str) -> (r: bool)
    ensures
        r == (q@ == public_name(name@)),
{
    q.same(&QName::new(Namespace::public(), name))
}

impl VectorStorage {
    /// A vector of `length` holes.
    pub fn new(length: usize, is_fixed: bool, value_type: QName) -> (r: VectorStorage)
        ensures
            r@ == (VectorStorageView {
                storage: Seq::new(length as nat, |i: int| None),
                is_fixed,
                value_type: value_type@,
            }),
    {
        let mut storage: Vec<Option<Value>> = Vec::new();
        let mut i: usize = 0;
        while i < length
            invariant
                i <= length,
                storage@.len() == i,
                forall|j: int| 0 <= j < i ==> #[trigger] storage@[j] is None,
            decreases length - i,
        {
            storage.push(None);
            i = i + 1;
        }
        let r = VectorStorage { storage, is_fixed, value_type };
        proof {
            assert(r.storage@.map_values(|v: Option<Value>| slot_view(v)) =~= Seq::new(length as nat, |i: int| None));
        }
        r
    }

    /// Make the length fixed or changeable.
    pub fn set_is_fixed(&mut self, is_fixed: bool)
        ensures
            final(self)@ == (VectorStorageView { is_fixed, ..old(self)@ }),
    {
        self.is_fixed = is_fixed;
    }

    /// Whether the length is fixed.
    pub fn is_fixed(&self) -> (r: bool)
        ensures
            r == self@.is_fixed,
    {
        self.is_fixed
    }

    /// The length of the vector.
    pub fn length(&self) -> (r: usize)
        ensures
            r == self@.storage.len(),
    {
        self.storage.len()
    }

    /// The type parameter of the vector.
    pub fn value_type(&self) -> (r: &QName)
        ensures
            r@ == self@.value_type,
    {
        &self.value_type
    }

    /// Change the length: truncate, or extend with holes. Fixed vectors
    /// refuse.
    pub fn resize(&mut self, new_length: usize) -> (r: Result<(), VectorError>)
        ensures
            old(self)@.is_fixed ==> r == Err::<(), VectorError>(VectorError::Fixed) && final(self)@ == old(self)@,
            !old(self)@.is_fixed ==> r is Ok && final(self)@ == (VectorStorageView {
                storage: Seq::new(
                    new_length as nat,
                    |i: int| if i < old(self)@.storage.len() { old(self)@.storage[i] } else { None },
                ),
                ..old(self)@
            }),
    {
        if self.is_fixed {
            return Err(VectorError::Fixed);
        }
        let ghost before = self@.storage;
        if new_length <= self.storage.len() {
            self.storage.truncate(new_length);
        } else {
            while self.storage.len() < new_length
                invariant
                    self.storage@.len() <= new_length,
                    self.storage@.len() >= before.len(),
                    before == old(self)@.storage,
                    forall|j: int| 0 <= j < before.len() ==> #[trigger] slot_view(self.storage@[j]) == before[j],
                    forall|j: int| before.len() <= j < self.storage@.len() ==> #[trigger] self.storage@[j] is None,
                    self.is_fixed == old(self).is_fixed,
                    self.value_type == old(self).value_type,
                decreases new_length - self.storage@.len(),
            {
                self.storage.push(None);
            }
        }
        proof {
            assert(self@.storage =~= Seq::new(
                new_length as nat,
                |i: int| if i < before.len() { before[i] } else { None },
            ));
        }
        Ok(())
    }

    /// The value a hole reads as: zero for `int`, `uint` and `Number`
    /// vectors, `null` otherwise.
    pub fn default(&self) -> (r: Value)
        ensures
            r@ == default_for(self@.value_type),
    {
        proof {
            reveal_strlit("int");
            reveal_strlit("uint");
            reveal_strlit("Number");
        }
        if is_public_type(&self.value_type, "int") {
            Value::Integer(0)
        } else if is_public_type(&self.value_type, "uint") {
            Value::Unsigned(0)
        } else if is_public_type(&self.value_type, "Number") {
            Value::Number(0)
        } else {
            Value::Null
        }
    }

    /// The coercion to apply to values stored in a vector of `ty_name`.
    pub fn coercion(ty_name: &QName) -> (r: Coercion)
        ensures
            r == coercion_for(ty_name@),
    {
        proof {
            reveal_strlit("int");
            reveal_strlit("uint");
            reveal_strlit("Number");
            reveal_strlit("String");
            reveal_strlit("Boolean");
        }
        if is_public_type(ty_name, "int") {
            Coercion::ToInt
        } else if is_public_type(ty_name, "uint") {
            Coercion::ToUint
        } else if is_public_type(ty_name, "Number") {
            Coercion::ToNumber
        } else if is_public_type(ty_name, "String") {
            Coercion::ToString
        } else if is_public_type(ty_name, "Boolean") {
            Coercion::ToBoolean
        } else {
            Coercion::ToInstance
        }
    }

    /// Retrieve a value; holes read as the type's default value.
    pub fn get(&self, pos: usize) -> (r: Result<Value, VectorError>)
        ensures
            pos < self@.storage.len() ==> (r matches Ok(v) && v@ == read_slot(self@.storage[pos as int], self@.value_type)),
            pos >= self@.storage.len() ==> r == Err::<Value, VectorError>(VectorError::OutOfRange(pos)),
    {
        if pos < self.storage.len() {
            match &self.storage[pos] {
                Some(v) => Ok(v.duplicate()),
                None => Ok(self.default()),
            }
        } else {
            Err(VectorError::OutOfRange(pos))
        }
    }

    /// Store a value (or a hole) at a position inside the vector. Values
    /// must be coerced to the vector's type first.
    pub fn set(&mut self, pos: usize, value: Option<Value>) -> (r: Result<(), VectorError>)
        ensures
            pos < old(self)@.storage.len() ==> r is Ok && final(self)@ == (VectorStorageView {
                storage: old(self)@.storage.update(pos as int, slot_view(value)),
                ..old(self)@
            }),
            pos >= old(self)@.storage.len() ==> r == Err::<(), VectorError>(VectorError::OutOfRange(pos))
                && final(self)@ == old(self)@,
    {
        if pos < self.storage.len() {
            let ghost v = slot_view(value);
            self.storage.set(pos, value);
            proof {
                assert(self@.storage =~= old(self)@.storage.update(pos as int, v));
            }
            Ok(())
        } else {
            Err(VectorError::OutOfRange(pos))
        }
    }

    /// Append a value (or a hole). Values must be coerced first.
    pub fn push(&mut self, value: Option<Value>)
        ensures
            final(self)@ == (VectorStorageView { storage: old(self)@.storage.push(slot_view(value)), ..old(self)@ }),
    {
        let ghost v = slot_view(value);
        self.storage.push(value);
        proof {
            assert(self@.storage =~= old(self)@.storage.push(v));
        }
    }

    /// A copy of the stored slots, in order.
    pub fn iter(&self) -> (r: Vec<Option<Value>>)
        ensures
            r@.map_values(|v: Option<Value>| slot_view(v)) == self@.storage,
    {
        let mut out: Vec<Option<Value>> = Vec::new();
        let mut i: usize = 0;
        while i < self.storage.len()
            invariant
                i <= self.storage@.len(),
                out@.len() == i,
                forall|j: int| 0 <= j < i ==> #[trigger] slot_view(out@[j]) == slot_view(self.storage@[j]),
            decreases self.storage.len() - i,
        {
            let v = match &self.storage[i] {
                Some(x) => Some(x.duplicate()),
                None => None,
            };
            out.push(v);
            i = i + 1;
        }
        proof {
            assert(out@.map_values(|v: Option<Value>| slot_view(v)) =~= self@.storage);
        }
        out
    }
}

/// What a slot reads as in a vector of the named type.
pub open spec fn read_slot(slot: Option<ValueView>, ty_name: QNameView) -> ValueView {
    match slot {
        Some(x) => x,
        None => default_for(ty_name),
    }
}

/// Reading back a stored value gives it back; a stored hole reads as the
/// default of the vector's type.
pub proof fn law_set_then_get(v: VectorStorageView, pos: int, value: Option<ValueView>)
    requires
        0 <= pos < v.storage.len(),
    ensures
        read_slot(v.storage.update(pos, value)[pos], v.value_type) == read_slot(value, v.value_type),
{
}

/// Growing a vector keeps its values and adds holes; shrinking keeps the
/// prefix.
pub proof fn law_resize_keeps_prefix(v: VectorStorageView, new_length: nat, i: int)
    requires
        0 <= i < new_length,
        i < v.storage.len(),
    ensures
        Seq::new(new_length, |k: int| if k < v.storage.len() { v.storage[k] } else { None })[i] == v.storage[i],
{
}

/// The text an item of a vector contributes to `join`: its string form,
/// or the empty string for a hole, `undefined` or `null` (`None`).
pub open spec fn join_item_text(item: Option<Seq<char>>) -> Seq<char> {
    match item {
        Some(t) => t,
        None => Seq::empty(),
    }
}

/// The texts of the items, with the separator between each two.
pub open spec fn joined(items: Seq<Option<Seq<char>>>, sep: Seq<char>) -> Seq<char>
    decreases items.len(),
{
    if items.len() == 0 {
        Seq::empty()
    } else if items.len() == 1 {
        join_item_text(items[0])
    } else {
        joined(items.drop_last(), sep) + sep + join_item_text(items.last())
    }
}

/// The views of the items handed to `join`.
pub open spec fn join_items_view(items: Seq<Option<String>>) -> Seq<Option<Seq<char>>> {
    items.map_values(|i: Option<String>| match i {
        Some(t) => Some(t@),
        None => None,
    })
}

/// `Vector.join`: the items' texts with the separator between each two,
/// given each item already converted to a string, or `None` for a hole,
/// `undefined` or `null`, which give the empty string. An undefined
/// separator (`None`) is a comma; another separator is given converted.
/// `Vector.toString` is `join` with a comma.
pub fn join(items: &Vec<Option<String>>, separator: Option<&str>) -> (r: String)
    ensures
        r@ == joined(
            join_items_view(items@),
            match separator {
                Some(s) => s@,
                None => ","@,
            },
        ),
{
    let sep: &str = match separator {
        Some(s) => s,
        None => ",",
    };
    let ghost iv = join_items_view(items@);
    let mut out = String::new();
    let mut i: usize = 0;
    proof {
        assert(iv.take(0) =~= Seq::<Option<Seq<char>>>::empty());
    }
    while i < items.len()
        invariant
            i <= items@.len(),
            iv == join_items_view(items@),
            out@ == joined(iv.take(i as int), sep@),
        decreases items@.len() - i,
    {
        proof {
            assert(iv.take(i + 1).drop_last() =~= iv.take(i as int));
            assert(iv.take(i + 1).last() == iv[i as int]);
            if i == 0 {
                assert(iv.take(1) =~= seq![iv[0]]);
            }
        }
        if i > 0 {
            out.append(sep);
        }
        match &items[i] {
            Some(t) => {
                out.append(t.as_str());
            },
            None => {},
        }
        proof {
            assert(out@ =~= joined(iv.take(i + 1), sep@));
        }
        i = i + 1;
    }
    proof {
        assert(iv.take(i as int) =~= iv);
    }
    out
}

} // verus!
