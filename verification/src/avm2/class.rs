//! Loaded ActionScript 3 classes.

use crate::avm2::names::{Multiname, MultinameView, Namespace, NamespaceView, QName, QNameView, AS3_NAMESPACE_URI};
use crate::avm2::traits::{ConstValue, ConstValueView, Method, Trait, TraitKind, TraitKindView, TraitView};
use vstd::prelude::*;

verus! {

/// The attributes of a class.
#[derive(Clone, Copy, Debug, PartialEq, Eq, Structural)]
pub struct ClassAttributes {
    /// Setting or initializing dynamic properties on an instance fails.
    pub sealed: bool,
    /// The class may not be subclassed.
    pub is_final: bool,
    /// The class is an interface.
    pub interface: bool,
}

impl ClassAttributes {
    /// No attributes.
    pub fn empty() -> (r: ClassAttributes)
        ensures
            r == (ClassAttributes { sealed: false, is_final: false, interface: false }),
    {
        ClassAttributes { sealed: false, is_final: false, interface: false }
    }

    /// Only the sealed attribute.
    pub fn sealed_only() -> (r: ClassAttributes)
        ensures
            r == (ClassAttributes { sealed: true, is_final: false, interface: false }),
    {
        ClassAttributes { sealed: true, is_final: false, interface: false }
    }

    /// Only the final attribute.
    pub fn final_only() -> (r: ClassAttributes)
        ensures
            r == (ClassAttributes { sealed: false, is_final: true, interface: false }),
    {
        ClassAttributes { sealed: false, is_final: true, interface: false }
    }

    /// Only the interface attribute.
    pub fn interface_only() -> (r: ClassAttributes)
        ensures
            r == (ClassAttributes { sealed: false, is_final: false, interface: true }),
    {
        ClassAttributes { sealed: false, is_final: false, interface: true }
    }

    /// The attributes set in either operand.
    pub fn union(self, other: ClassAttributes) -> (r: ClassAttributes)
        ensures
            r == (ClassAttributes {
                sealed: self.sealed || other.sealed,
                is_final: self.is_final || other.is_final,
                interface: self.interface || other.interface,
            }),
    {
        ClassAttributes {
            sealed: self.sealed || other.sealed,
            is_final: self.is_final || other.is_final,
            interface: self.interface || other.interface,
        }
    }

    /// Whether every attribute of `other` is set here.
    pub fn contains(&self, other: ClassAttributes) -> (r: bool)
        ensures
            r == ((other.sealed ==> self.sealed) && (other.is_final ==> self.is_final) && (
            other.interface ==> self.interface)),
    {
        (!other.sealed || self.sealed) && (!other.is_final || self.is_final) && (!other.interface
            || self.interface)
    }
}

/// The way instances of a class are allocated, identified by the index of
/// an allocator in the runtime. Index 0 is the implicit deriver, which
/// defers to the nearest base class with a deriver of its own.
#[derive(Clone, Copy, Debug, PartialEq, Eq, Structural)]
pub struct Deriver(pub u32);

/// The implicit deriver.
pub open spec fn is_implicit(d: Deriver) -> bool {
    d.0 == 0
}

/// The deriver used for a class whose derivers, from the class itself up
/// through its base classes, are `chain`: the first one that is not implicit,
/// or `None` when there is none and a plain script object is allocated.
pub open spec fn resolved_deriver(chain: Seq<Deriver>) -> Option<Deriver>
    decreases chain.len(),
{
    if chain.len() == 0 {
        None
    } else if !is_implicit(chain[0]) {
        Some(chain[0])
    } else {
        resolved_deriver(chain.skip(1))
    }
}

/// The implicit deriver for new classes: use the nearest deriver up the
/// class hierarchy, or a plain script object (`None`) if there is none.
pub fn implicit_deriver(chain: &Vec<Deriver>) -> (r: Option<Deriver>)
    ensures
        r == resolved_deriver(chain@),
{
    let mut i: usize = 0;
    proof {
        assert(chain@.skip(0) =~= chain@);
    }
    while i < chain.len()
        invariant
            i <= chain@.len(),
            resolved_deriver(chain@) == resolved_deriver(chain@.skip(i as int)),
        decreases chain.len() - i,
    {
        proof {
            assert(chain@.skip(i as int)[0] == chain@[i as int]);
            assert(chain@.skip(i as int).skip(1) =~= chain@.skip(i + 1));
        }
        if chain[i].0 != 0 {
            return Some(chain[i]);
        }
        i = i + 1;
    }
    proof {
        assert(chain@.skip(i as int) =~= Seq::<Deriver>::empty());
    }
    None
}

/// Why a trait lookup failed.
#[derive(Clone, Copy, Debug, PartialEq, Eq, Structural)]
pub enum TraitLookupError {
    /// A definition tried to override a final definition.
    OverrideFinal,
    /// A definition overlapped an existing one without being an override.
    NotMarkedOverride,
}

impl TraitLookupError {
    /// The error message.
    pub fn message(&self) -> (r: &'static str)
        ensures
            *self is OverrideFinal ==> r@ == "Attempting to override a final definition"@,
            *self is NotMarkedOverride ==> r@ == "Definition override is not marked as override"@,
    {
        match self {
            TraitLookupError::OverrideFinal => "Attempting to override a final definition",
            TraitLookupError::NotMarkedOverride => "Definition override is not marked as override",
        }
    }
}

/// The views of a list of traits.
pub open spec fn traits_view(s: Seq<Trait>) -> Seq<TraitView> {
    s.map_values(|t: Trait| t@)
}

/// A getter and a setter of the same name do not conflict.
pub open spec fn accessor_pair(a: TraitKindView, b: TraitKindView) -> bool {
    (a is Getter && b is Setter) || (a is Setter && b is Getter)
}

/// Whether `t` takes the place of the known trait `k`: they have the same
/// name and are not a getter and a setter of it.
pub open spec fn overlaps(t: TraitView, k: TraitView) -> bool {
    k.name == t.name && !accessor_pair(t.kind, k.kind)
}

/// The first conflict between `t` and the known traits it overlaps, in
/// order: overlapping a final trait, or overlapping without being marked
/// as an override.
pub open spec fn conflict(known: Seq<TraitView>, t: TraitView) -> Option<TraitLookupError>
    decreases known.len(),
{
    if known.len() == 0 {
        None
    } else if !overlaps(t, known[0]) {
        conflict(known.skip(1), t)
    } else if known[0].is_final {
        Some(TraitLookupError::OverrideFinal)
    } else if !t.is_override {
        Some(TraitLookupError::NotMarkedOverride)
    } else {
        conflict(known.skip(1), t)
    }
}

/// The known traits that `t` does not overlap, in order.
pub open spec fn kept(known: Seq<TraitView>, t: TraitView) -> Seq<TraitView>
    decreases known.len(),
{
    if known.len() == 0 {
        Seq::empty()
    } else if overlaps(t, known.last()) {
        kept(known.drop_last(), t)
    } else {
        kept(known.drop_last(), t).push(known.last())
    }
}

/// The known traits with `t` in place of those it overrides: the others
/// stay in order, and `t` comes last.
pub open spec fn with_override(known: Seq<TraitView>, t: TraitView) -> Seq<TraitView> {
    kept(known, t).push(t)
}

/// Adding the traits of `all` named `name` to `known`, each replacing the
/// known traits it overrides: the resulting list and the error that stopped
/// the scan, if any.
pub open spec fn lookup_run(name: QNameView, known: Seq<TraitView>, all: Seq<TraitView>) -> (Seq<TraitView>, Option<TraitLookupError>)
    decreases all.len(),
{
    if all.len() == 0 {
        (known, None)
    } else if all[0].name == name {
        match conflict(known, all[0]) {
            Some(e) => (known, Some(e)),
            None => lookup_run(name, with_override(known, all[0]), all.skip(1)),
        }
    } else {
        lookup_run(name, known, all.skip(1))
    }
}

/// The slot a trait kind occupies, if it occupies one.
pub open spec fn slot_of(k: TraitKindView) -> Option<u32> {
    match k {
        TraitKindView::Slot { slot_id, .. } => Some(slot_id),
        TraitKindView::Const { slot_id, .. } => Some(slot_id),
        TraitKindView::Class { slot_id, .. } => Some(slot_id),
        TraitKindView::Function { slot_id, .. } => Some(slot_id),
        _ => None,
    }
}

/// The view of an optional trait.
pub open spec fn trait_opt_view(t: Option<Trait>) -> Option<TraitView> {
    match t {
        Some(t) => Some(t@),
        None => None,
    }
}

/// Scanning `all` for the traits occupying slot `id`, given the one found so
/// far: a later trait in the slot replaces it when marked as an override,
/// and overlapping a final trait, or overlapping without being marked as an
/// override, is an error.
pub open spec fn slot_run(found: Option<TraitView>, all: Seq<TraitView>, id: u32) -> Result<Option<TraitView>, TraitLookupError>
    decreases all.len(),
{
    if all.len() == 0 {
        Ok(found)
    } else if slot_of(all[0].kind) != Some(id) {
        slot_run(found, all.skip(1), id)
    } else {
        match found {
            None => slot_run(Some(all[0]), all.skip(1), id),
            Some(k) => if k.is_final {
                Err(TraitLookupError::OverrideFinal)
            } else if !all[0].is_override {
                Err(TraitLookupError::NotMarkedOverride)
            } else {
                slot_run(Some(all[0]), all.skip(1), id)
            },
        }
    }
}

/// The result of looking up slot `id` in `all`, with the trait found taken
/// by its view.
pub open spec fn slot_result_matches(r: Result<Option<Trait>, TraitLookupError>, all: Seq<TraitView>, id: u32) -> bool {
    match r {
        Ok(found) => slot_run(None, all, id) == Ok::<Option<TraitView>, TraitLookupError>(trait_opt_view(found)),
        Err(e) => slot_run(None, all, id) == Err::<Option<TraitView>, TraitLookupError>(e),
    }
}

/// The namespace of the first trait with the given local name.
pub open spec fn find_local_name(all: Seq<TraitView>, local_name: Seq<char>) -> Option<NamespaceView>
    decreases all.len(),
{
    if all.len() == 0 {
        None
    } else if all[0].name.name == local_name {
        Some(all[0].name.ns)
    } else {
        find_local_name(all.skip(1), local_name)
    }
}

/// Whether `t` takes the place of the known trait `k`.
fn overlaps_known(t: &Trait, k: &Trait) -> (r: bool)
    ensures
        r == overlaps(t@, k@),
{
    let pair = match (t.kind(), k.kind()) {
        (TraitKind::Getter { .. }, TraitKind::Setter { .. }) => true,
        (TraitKind::Setter { .. }, TraitKind::Getter { .. }) => true,
        _ => false,
    };
    !pair && k.name().same(t.name())
}

/// Whether a trait is known to conflict with `t`.
fn find_conflict(known: &Vec<Trait>, t: &Trait) -> (r: Option<TraitLookupError>)
    ensures
        r == conflict(traits_view(known@), t@),
{
    let ghost kv = traits_view(known@);
    let mut i: usize = 0;
    proof {
        assert(kv.skip(0) =~= kv);
    }
    while i < known.len()
        invariant
            i <= known@.len(),
            kv == traits_view(known@),
            conflict(kv, t@) == conflict(kv.skip(i as int), t@),
        decreases known.len() - i,
    {
        proof {
            assert(kv.skip(i as int)[0] == known@[i as int]@);
            assert(kv.skip(i as int).skip(1) =~= kv.skip(i + 1));
        }
        let k = &known[i];
        if overlaps_known(t, k) {
            if k.is_final() {
                return Some(TraitLookupError::OverrideFinal);
            }
            if !t.is_override() {
                return Some(TraitLookupError::NotMarkedOverride);
            }
        }
        i = i + 1;
    }
    proof {
        assert(kv.skip(i as int) =~= Seq::<TraitView>::empty());
    }
    None
}

/// The known traits with `t` in place of those it overrides.
fn replace_overridden(known: &Vec<Trait>, t: &Trait) -> (r: Vec<Trait>)
    ensures
        traits_view(r@) == with_override(traits_view(known@), t@),
{
    let ghost kv = traits_view(known@);
    let mut out: Vec<Trait> = Vec::new();
    let mut i: usize = 0;
    proof {
        assert(kv.take(0) =~= Seq::<TraitView>::empty());
        assert(traits_view(out@) =~= Seq::<TraitView>::empty());
    }
    while i < known.len()
        invariant
            i <= known@.len(),
            kv == traits_view(known@),
            traits_view(out@) == kept(kv.take(i as int), t@),
        decreases known.len() - i,
    {
        proof {
            assert(kv.take(i + 1).drop_last() =~= kv.take(i as int));
            assert(kv.take(i + 1).last() == known@[i as int]@);
        }
        let k = &known[i];
        if !overlaps_known(t, k) {
            let ghost before = out@;
            out.push(k.duplicate());
            proof {
                assert(traits_view(out@) =~= traits_view(before).push(k@));
            }
        }
        i = i + 1;
    }
    proof {
        assert(kv.take(i as int) =~= kv);
    }
    let ghost before = out@;
    out.push(t.duplicate());
    proof {
        assert(traits_view(out@) =~= traits_view(before).push(t@));
    }
    out
}

/// Add the traits of `all_traits` named `name` to `known_traits`, each
/// replacing the known traits it overrides, and enforcing the final and
/// override attributes.
fn do_trait_lookup(name: &QName, known_traits: &mut Vec<Trait>, all_traits: &Vec<Trait>) -> (r: Result<(), TraitLookupError>)
    ensures
        traits_view(final(known_traits)@) == lookup_run(name@, traits_view(old(known_traits)@), traits_view(all_traits@)).0,
        r == match lookup_run(name@, traits_view(old(known_traits)@), traits_view(all_traits@)).1 {
            Some(e) => Err(e),
            None => Ok(()),
        },
{
    let ghost av = traits_view(all_traits@);
    let ghost goal = lookup_run(name@, traits_view(old(known_traits)@), av);
    let mut i: usize = 0;
    proof {
        assert(av.skip(0) =~= av);
    }
    while i < all_traits.len()
        invariant
            i <= all_traits@.len(),
            av == traits_view(all_traits@),
            goal == lookup_run(name@, traits_view(known_traits@), av.skip(i as int)),
            goal == lookup_run(name@, traits_view(old(known_traits)@), traits_view(all_traits@)),
        decreases all_traits.len() - i,
    {
        proof {
            assert(av.skip(i as int)[0] == all_traits@[i as int]@);
            assert(av.skip(i as int).skip(1) =~= av.skip(i + 1));
        }
        let trait_entry = &all_traits[i];
        if name.same(trait_entry.name()) {
            match find_conflict(known_traits, trait_entry) {
                Some(e) => {
                    return Err(e);
                },
                None => {
                    let replaced = replace_overridden(known_traits, trait_entry);
                    *known_traits = replaced;
                },
            }
        }
        i = i + 1;
    }
    proof {
        assert(av.skip(i as int) =~= Seq::<TraitView>::empty());
    }
    Ok(())
}

/// The slot a trait occupies, if it occupies one.
fn slot_id_of(t: &Trait) -> (r: Option<u32>)
    ensures
        r == slot_of(t@.kind),
{
    match t.kind() {
        TraitKind::Slot { slot_id, .. } => Some(*slot_id),
        TraitKind::Const { slot_id, .. } => Some(*slot_id),
        TraitKind::Class { slot_id, .. } => Some(*slot_id),
        TraitKind::Function { slot_id, .. } => Some(*slot_id),
        _ => None,
    }
}

/// Find the trait of `all_traits` occupying slot `id`: a later trait in the
/// same slot takes the place of an earlier one when marked as an override,
/// and is an error otherwise or when the earlier one is final.
fn do_trait_lookup_by_slot(id: u32, all_traits: &Vec<Trait>) -> (r: Result<Option<Trait>, TraitLookupError>)
    ensures
        slot_result_matches(r, traits_view(all_traits@), id),
{
    let ghost av = traits_view(all_traits@);
    let mut found: Option<Trait> = None;
    let mut i: usize = 0;
    proof {
        assert(av.skip(0) =~= av);
    }
    while i < all_traits.len()
        invariant
            i <= all_traits@.len(),
            av == traits_view(all_traits@),
            slot_run(None, av, id) == slot_run(trait_opt_view(found), av.skip(i as int), id),
        decreases all_traits.len() - i,
    {
        proof {
            assert(av.skip(i as int)[0] == all_traits@[i as int]@);
            assert(av.skip(i as int).skip(1) =~= av.skip(i + 1));
        }
        let trait_entry = &all_traits[i];
        if slot_id_of(trait_entry) == Some(id) {
            match &found {
                Some(k) => {
                    if k.is_final() {
                        return Err(TraitLookupError::OverrideFinal);
                    }
                    if !trait_entry.is_override() {
                        return Err(TraitLookupError::NotMarkedOverride);
                    }
                },
                None => {},
            }
            found = Some(trait_entry.duplicate());
        }
        i = i + 1;
    }
    proof {
        assert(av.skip(i as int) =~= Seq::<TraitView>::empty());
    }
    Ok(found)
}

/// Whether a trait with the given name is in the list.
fn has_trait(all_traits: &Vec<Trait>, name: &QName) -> (r: bool)
    ensures
        r == exists|i: int| 0 <= i < all_traits@.len() && #[trigger] all_traits@[i]@.name == name@,
{
    let mut i: usize = 0;
    while i < all_traits.len()
        invariant
            i <= all_traits@.len(),
            forall|j: int| 0 <= j < i ==> #[trigger] all_traits@[j]@.name != name@,
        decreases all_traits.len() - i,
    {
        if name.same(all_traits[i].name()) {
            return true;
        }
        i = i + 1;
    }
    false
}

/// The namespace of the first trait with the given local name.
fn resolve_any_trait(all_traits: &Vec<Trait>, local_name: &str) -> (r: Option<Namespace>)
    ensures
        match r {
            Some(ns) => find_local_name(traits_view(all_traits@), local_name@) == Some(ns@),
            None => find_local_name(traits_view(all_traits@), local_name@) is None,
        },
{
    let ghost av = traits_view(all_traits@);
    let target = String::from_str(local_name);
    let mut i: usize = 0;
    proof {
        assert(av.skip(0) =~= av);
    }
    while i < all_traits.len()
        invariant
            i <= all_traits@.len(),
            av == traits_view(all_traits@),
            target@ == local_name@,
            find_local_name(av, local_name@) == find_local_name(av.skip(i as int), local_name@),
        decreases all_traits.len() - i,
    {
        proof {
            assert(av.skip(i as int)[0] == all_traits@[i as int]@);
            assert(av.skip(i as int).skip(1) =~= av.skip(i + 1));
        }
        let trait_name = all_traits[i].name();
        if *trait_name.local_name() == target {
            return Some(trait_name.namespace().duplicate());
        }
        i = i + 1;
    }
    proof {
        assert(av.skip(i as int) =~= Seq::<TraitView>::empty());
    }
    None
}

/// A name in the public namespace.
pub open spec fn public_qname(name: Seq<char>) -> QNameView {
    QNameView { ns: NamespaceView::Package(Seq::empty()), name }
}

/// The multiname of a public type.
pub open spec fn public_type_name(name: Seq<char>) -> MultinameView {
    MultinameView { ns: seq![NamespaceView::Package(Seq::empty())], name: Some(name) }
}

/// A public constant trait of the given type and value.
pub open spec fn constant_trait(name: Seq<char>, ty_name: Seq<char>, value: Option<ConstValueView>) -> TraitView {
    TraitView {
        name: public_qname(name),
        is_final: false,
        is_override: false,
        kind: TraitKindView::Const { slot_id: 0, slot_type: public_type_name(ty_name), default_value: value },
    }
}

/// A plain trait of the given name and kind.
pub open spec fn plain_trait(name: QNameView, kind: TraitKindView) -> TraitView {
    TraitView { name, is_final: false, is_override: false, kind }
}

/// The getter and setter traits that a list of property items defines.
pub open spec fn accessor_traits(items: Seq<(&str, Option<Method>, Option<Method>)>) -> Seq<TraitView>
    decreases items.len(),
{
    if items.len() == 0 {
        Seq::empty()
    } else {
        let (name, getter, setter) = items.last();
        accessor_traits(items.drop_last()) + match getter {
            Some(g) => seq![plain_trait(public_qname(name@), TraitKindView::Getter { disp_id: 0, method: g })],
            None => Seq::empty(),
        } + match setter {
            Some(s) => seq![plain_trait(public_qname(name@), TraitKindView::Setter { disp_id: 0, method: s })],
            None => Seq::empty(),
        }
    }
}

/// The views of a list of multinames.
pub open spec fn multinames_view(s: Seq<Multiname>) -> Seq<MultinameView> {
    s.map_values(|m: Multiname| m@)
}

/// A loaded class, from which objects can be constructed.
#[derive(Clone, Debug)]
pub struct Class {
    name: QName,
    super_class: Option<Multiname>,
    attributes: ClassAttributes,
    protected_namespace: Option<Namespace>,
    interfaces: Vec<Multiname>,
    instance_deriver: Deriver,
    instance_init: Method,
    native_instance_init: Method,
    instance_traits: Vec<Trait>,
    class_init: Method,
    class_initializer_called: bool,
    class_traits: Vec<Trait>,
    traits_loaded: bool,
}

/// The mathematical form of a [`Class`].
pub ghost struct ClassView {
    pub name: QNameView,
    pub super_class: Option<MultinameView>,
    pub attributes: ClassAttributes,
    pub protected_namespace: Option<NamespaceView>,
    pub interfaces: Seq<MultinameView>,
    pub instance_deriver: Deriver,
    pub instance_init: Method,
    pub native_instance_init: Method,
    pub instance_traits: Seq<TraitView>,
    pub class_init: Method,
    pub class_initialized: bool,
    pub class_traits: Seq<TraitView>,
    pub traits_loaded: bool,
}

impl View for Class {
    type V = ClassView;

    closed spec fn view(&self) -> ClassView {
        ClassView {
            name: self.name@,
            super_class: match self.super_class {
                Some(m) => Some(m@),
                None => None,
            },
            attributes: self.attributes,
            protected_namespace: match self.protected_namespace {
                Some(n) => Some(n@),
                None => None,
            },
            interfaces: multinames_view(self.interfaces@),
            instance_deriver: self.instance_deriver,
            instance_init: self.instance_init,
            native_instance_init: self.native_instance_init,
            instance_traits: traits_view(self.instance_traits@),
            class_init: self.class_init,
            class_initialized: self.class_initializer_called,
            class_traits: traits_view(self.class_traits@),
            traits_loaded: self.traits_loaded,
        }
    }
}

impl Class {
    /// Create a new class with no attributes, interfaces or traits, the
    /// implicit deriver, and the instance initializer doubling as the native
    /// one. Its traits count as loaded.
    pub fn new(name: QName, super_class: Option<Multiname>, instance_init: Method, class_init: Method) -> (r: Class)
        ensures
            r@ == (ClassView {
                name: name@,
                super_class: match super_class {
                    Some(m) => Some(m@),
                    None => None,
                },
                attributes: ClassAttributes { sealed: false, is_final: false, interface: false },
                protected_namespace: None,
                interfaces: Seq::empty(),
                instance_deriver: Deriver(0),
                instance_init,
                native_instance_init: instance_init,
                instance_traits: Seq::empty(),
                class_init,
                class_initialized: false,
                class_traits: Seq::empty(),
                traits_loaded: true,
            }),
    {
        let r = Class {
            name,
            super_class,
            attributes: ClassAttributes::empty(),
            protected_namespace: None,
            interfaces: Vec::new(),
            instance_deriver: Deriver(0),
            instance_init,
            native_instance_init: instance_init,
            instance_traits: Vec::new(),
            class_init,
            class_initializer_called: false,
            class_traits: Vec::new(),
            traits_loaded: true,
        };
        proof {
            assert(multinames_view(r.interfaces@) =~= Seq::<MultinameView>::empty());
            assert(traits_view(r.instance_traits@) =~= Seq::<TraitView>::empty());
            assert(traits_view(r.class_traits@) =~= Seq::<TraitView>::empty());
        }
        r
    }

    /// A class whose traits are still to be loaded with `load_traits`.
    pub fn new_unloaded(
        name: QName,
        super_class: Option<Multiname>,
        attributes: ClassAttributes,
        protected_namespace: Option<Namespace>,
        interfaces: Vec<Multiname>,
        instance_init: Method,
        class_init: Method,
    ) -> (r: Class)
        ensures
            r@ == (ClassView {
                name: name@,
                super_class: match super_class {
                    Some(m) => Some(m@),
                    None => None,
                },
                attributes,
                protected_namespace: match protected_namespace {
                    Some(n) => Some(n@),
                    None => None,
                },
                interfaces: multinames_view(interfaces@),
                instance_deriver: Deriver(0),
                instance_init,
                native_instance_init: instance_init,
                instance_traits: Seq::empty(),
                class_init,
                class_initialized: false,
                class_traits: Seq::empty(),
                traits_loaded: false,
            }),
    {
        let r = Class {
            name,
            super_class,
            attributes,
            protected_namespace,
            interfaces,
            instance_deriver: Deriver(0),
            instance_init,
            native_instance_init: instance_init,
            instance_traits: Vec::new(),
            class_init,
            class_initializer_called: false,
            class_traits: Vec::new(),
            traits_loaded: false,
        };
        proof {
            assert(traits_view(r.instance_traits@) =~= Seq::<TraitView>::empty());
            assert(traits_view(r.class_traits@) =~= Seq::<TraitView>::empty());
        }
        r
    }

    /// The class of an activation object: a public dynamic name, the given
    /// instance traits, and native initializers that do nothing.
    pub fn for_activation_constr(name: &str, traits: Vec<Trait>, noop_init: Method, noop_class_init: Method) -> (r: Class)
        ensures
            r@ == (ClassView {
                name: QNameView { ns: NamespaceView::Package(Seq::empty()), name: name@ },
                super_class: None,
                attributes: ClassAttributes { sealed: false, is_final: false, interface: false },
                protected_namespace: None,
                interfaces: Seq::empty(),
                instance_deriver: Deriver(0),
                instance_init: noop_init,
                native_instance_init: noop_init,
                instance_traits: traits_view(traits@),
                class_init: noop_class_init,
                class_initialized: false,
                class_traits: Seq::empty(),
                traits_loaded: true,
            }),
    {
        let mut r = Class::new(QName::dynamic_name(name), None, noop_init, noop_class_init);
        r.instance_traits = traits;
        r
    }

    /// Finish loading: append the instance and class traits, once. A class
    /// whose traits are already loaded is left unchanged.
    pub fn load_traits(&mut self, instance_traits: Vec<Trait>, class_traits: Vec<Trait>)
        ensures
            final(self)@ == changed(old(self)@, ClassChange::LoadTraits(traits_view(instance_traits@), traits_view(class_traits@))),
    {
        if self.traits_loaded {
            return;
        }
        self.traits_loaded = true;
        let mut instance_traits = instance_traits;
        let mut class_traits = class_traits;
        let ghost it = instance_traits@;
        let ghost ct = class_traits@;
        self.instance_traits.append(&mut instance_traits);
        self.class_traits.append(&mut class_traits);
        proof {
            assert(traits_view(self.instance_traits@) =~= traits_view(old(self).instance_traits@) + traits_view(it));
            assert(traits_view(self.class_traits@) =~= traits_view(old(self).class_traits@) + traits_view(ct));
        }
    }

    /// Set the attributes of the class.
    pub fn set_attributes(&mut self, attributes: ClassAttributes)
        ensures
            final(self)@ == changed(old(self)@, ClassChange::Attributes(attributes)),
    {
        self.attributes = attributes;
    }

    /// Set the namespace that protected traits of the class are stored in.
    pub fn set_protected_namespace(&mut self, ns: Namespace)
        ensures
            final(self)@ == changed(old(self)@, ClassChange::ProtectedNamespace(ns@)),
    {
        self.protected_namespace = Some(ns);
    }

    /// The name of the class.
    pub fn name(&self) -> (r: &QName)
        ensures
            r@ == self@.name,
    {
        &self.name
    }

    /// The name of the superclass.
    pub fn super_class_name(&self) -> (r: &Option<Multiname>)
        ensures
            match *r {
                Some(m) => self@.super_class == Some(m@),
                None => self@.super_class is None,
            },
    {
        &self.super_class
    }

    /// Define public constant class traits of type `String`.
    pub fn define_public_constant_string_class_traits(&mut self, items: &[(&str, &str)])
        ensures
            final(self)@ == changed(old(self)@, ClassChange::ClassTraits(Seq::new(
                    items@.len(),
                    |i: int| constant_trait(items@[i].0@, "String"@, Some(ConstValueView::String(items@[i].1@))),
                ))),
    {
        let mut i: usize = 0;
        while i < items.len()
            invariant
                i <= items@.len(),
                self@ == (ClassView {
                    class_traits: old(self)@.class_traits + Seq::new(
                        i as nat,
                        |j: int| constant_trait(items@[j].0@, "String"@, Some(ConstValueView::String(items@[j].1@))),
                    ),
                    ..old(self)@
                }),
            decreases items.len() - i,
        {
            let (name, value) = items[i];
            let ty_name = Multiname::from_qname(&QName::new(Namespace::public(), "String"));
            proof {
                reveal_strlit("String");
            }
            let t = Trait::from_const(QName::new(Namespace::public(), name), ty_name, Some(ConstValue::String(String::from_str(value))));
            let ghost before = self@.class_traits;
            self.define_class_trait(t);
            proof {
                assert(self@.class_traits =~= old(self)@.class_traits + Seq::new(
                    (i + 1) as nat,
                    |j: int| constant_trait(items@[j].0@, "String"@, Some(ConstValueView::String(items@[j].1@))),
                ));
            }
            i = i + 1;
        }
    }

    /// Define public constant class traits of type `uint`.
    pub fn define_public_constant_uint_class_traits(&mut self, items: &[(&str, u32)])
        ensures
            final(self)@ == changed(old(self)@, ClassChange::ClassTraits(Seq::new(
                    items@.len(),
                    |i: int| constant_trait(items@[i].0@, "uint"@, Some(ConstValueView::Unsigned(items@[i].1))),
                ))),
    {
        let mut i: usize = 0;
        while i < items.len()
            invariant
                i <= items@.len(),
                self@ == (ClassView {
                    class_traits: old(self)@.class_traits + Seq::new(
                        i as nat,
                        |j: int| constant_trait(items@[j].0@, "uint"@, Some(ConstValueView::Unsigned(items@[j].1))),
                    ),
                    ..old(self)@
                }),
            decreases items.len() - i,
        {
            let (name, value) = items[i];
            let ty_name = Multiname::from_qname(&QName::new(Namespace::public(), "uint"));
            proof {
                reveal_strlit("uint");
            }
            let t = Trait::from_const(QName::new(Namespace::public(), name), ty_name, Some(ConstValue::Unsigned(value)));
            self.define_class_trait(t);
            proof {
                assert(self@.class_traits =~= old(self)@.class_traits + Seq::new(
                    (i + 1) as nat,
                    |j: int| constant_trait(items@[j].0@, "uint"@, Some(ConstValueView::Unsigned(items@[j].1))),
                ));
            }
            i = i + 1;
        }
    }

    /// Define public constant class traits of type `Number`; each value is
    /// the bit pattern of an `f64`.
    pub fn define_public_constant_number_class_traits(&mut self, items: &[(&str, u64)])
        ensures
            final(self)@ == changed(old(self)@, ClassChange::ClassTraits(Seq::new(
                    items@.len(),
                    |i: int| constant_trait(items@[i].0@, "Number"@, Some(ConstValueView::Number(items@[i].1))),
                ))),
    {
        let mut i: usize = 0;
        while i < items.len()
            invariant
                i <= items@.len(),
                self@ == (ClassView {
                    class_traits: old(self)@.class_traits + Seq::new(
                        i as nat,
                        |j: int| constant_trait(items@[j].0@, "Number"@, Some(ConstValueView::Number(items@[j].1))),
                    ),
                    ..old(self)@
                }),
            decreases items.len() - i,
        {
            let (name, value) = items[i];
            let ty_name = Multiname::from_qname(&QName::new(Namespace::public(), "Number"));
            proof {
                reveal_strlit("Number");
            }
            let t = Trait::from_const(QName::new(Namespace::public(), name), ty_name, Some(ConstValue::Number(value)));
            self.define_class_trait(t);
            proof {
                assert(self@.class_traits =~= old(self)@.class_traits + Seq::new(
                    (i + 1) as nat,
                    |j: int| constant_trait(items@[j].0@, "Number"@, Some(ConstValueView::Number(items@[j].1))),
                ));
            }
            i = i + 1;
        }
    }

    /// Define public builtin instance methods.
    pub fn define_public_builtin_instance_methods(&mut self, items: &[(&str, Method)])
        ensures
            final(self)@ == changed(old(self)@, ClassChange::InstanceTraits(Seq::new(
                    items@.len(),
                    |i: int| plain_trait(public_qname(items@[i].0@), TraitKindView::Method { disp_id: 0, method: items@[i].1 }),
                ))),
    {
        let mut i: usize = 0;
        while i < items.len()
            invariant
                i <= items@.len(),
                self@ == (ClassView {
                    instance_traits: old(self)@.instance_traits + Seq::new(
                        i as nat,
                        |j: int| plain_trait(public_qname(items@[j].0@), TraitKindView::Method { disp_id: 0, method: items@[j].1 }),
                    ),
                    ..old(self)@
                }),
            decreases items.len() - i,
        {
            let (name, method) = items[i];
            self.define_instance_trait(Trait::from_method(QName::new(Namespace::public(), name), method));
            proof {
                assert(self@.instance_traits =~= old(self)@.instance_traits + Seq::new(
                    (i + 1) as nat,
                    |j: int| plain_trait(public_qname(items@[j].0@), TraitKindView::Method { disp_id: 0, method: items@[j].1 }),
                ));
            }
            i = i + 1;
        }
    }

    /// Define builtin instance methods in the AS3 namespace.
    pub fn define_as3_builtin_instance_methods(&mut self, items: &[(&str, Method)])
        ensures
            final(self)@ == changed(old(self)@, ClassChange::InstanceTraits(Seq::new(
                    items@.len(),
                    |i: int| plain_trait(QNameView { ns: NamespaceView::Namespace(AS3_NAMESPACE_URI@), name: items@[i].0@ }, TraitKindView::Method { disp_id: 0, method: items@[i].1 }),
                ))),
    {
        let mut i: usize = 0;
        while i < items.len()
            invariant
                i <= items@.len(),
                self@ == (ClassView {
                    instance_traits: old(self)@.instance_traits + Seq::new(
                        i as nat,
                        |j: int| plain_trait(QNameView { ns: NamespaceView::Namespace(AS3_NAMESPACE_URI@), name: items@[j].0@ }, TraitKindView::Method { disp_id: 0, method: items@[j].1 }),
                    ),
                    ..old(self)@
                }),
            decreases items.len() - i,
        {
            let (name, method) = items[i];
            self.define_instance_trait(Trait::from_method(QName::new(Namespace::as3_namespace(), name), method));
            proof {
                assert(self@.instance_traits =~= old(self)@.instance_traits + Seq::new(
                    (i + 1) as nat,
                    |j: int| plain_trait(QNameView { ns: NamespaceView::Namespace(AS3_NAMESPACE_URI@), name: items@[j].0@ }, TraitKindView::Method { disp_id: 0, method: items@[j].1 }),
                ));
            }
            i = i + 1;
        }
    }

    /// Define public builtin class methods.
    pub fn define_public_builtin_class_methods(&mut self, items: &[(&str, Method)])
        ensures
            final(self)@ == changed(old(self)@, ClassChange::ClassTraits(Seq::new(
                    items@.len(),
                    |i: int| plain_trait(public_qname(items@[i].0@), TraitKindView::Method { disp_id: 0, method: items@[i].1 }),
                ))),
    {
        let mut i: usize = 0;
        while i < items.len()
            invariant
                i <= items@.len(),
                self@ == (ClassView {
                    class_traits: old(self)@.class_traits + Seq::new(
                        i as nat,
                        |j: int| plain_trait(public_qname(items@[j].0@), TraitKindView::Method { disp_id: 0, method: items@[j].1 }),
                    ),
                    ..old(self)@
                }),
            decreases items.len() - i,
        {
            let (name, method) = items[i];
            self.define_class_trait(Trait::from_method(QName::new(Namespace::public(), name), method));
            proof {
                assert(self@.class_traits =~= old(self)@.class_traits + Seq::new(
                    (i + 1) as nat,
                    |j: int| plain_trait(public_qname(items@[j].0@), TraitKindView::Method { disp_id: 0, method: items@[j].1 }),
                ));
            }
            i = i + 1;
        }
    }

    /// Define public builtin instance properties: a getter and a setter
    /// trait, for each item that has them.
    pub fn define_public_builtin_instance_properties(&mut self, items: &[(&str, Option<Method>, Option<Method>)])
        ensures
            final(self)@ == changed(old(self)@, ClassChange::InstanceTraits(accessor_traits(items@))),
    {
        let mut i: usize = 0;
        while i < items.len()
            invariant
                i <= items@.len(),
                self@ == (ClassView {
                    instance_traits: old(self)@.instance_traits + accessor_traits(items@.subrange(0, i as int)),
                    ..old(self)@
                }),
            decreases items.len() - i,
        {
            let (name, getter, setter) = items[i];
            proof {
                assert(items@.subrange(0, i + 1).drop_last() =~= items@.subrange(0, i as int));
            }
            if let Some(getter) = getter {
                self.define_instance_trait(Trait::from_getter(QName::new(Namespace::public(), name), getter));
            }
            if let Some(setter) = setter {
                self.define_instance_trait(Trait::from_setter(QName::new(Namespace::public(), name), setter));
            }
            proof {
                assert(self@.instance_traits =~= old(self)@.instance_traits + accessor_traits(items@.subrange(0, i + 1)));
            }
            i = i + 1;
        }
        proof {
            assert(items@.subrange(0, items@.len() as int) =~= items@);
        }
    }

    /// Define a trait on the class; class traits are properties of the class
    /// constructor.
    pub fn define_class_trait(&mut self, my_trait: Trait)
        ensures
            final(self)@ == changed(old(self)@, ClassChange::ClassTraits(seq![my_trait@])),
    {
        let ghost t = my_trait@;
        self.class_traits.push(my_trait);
        proof {
            assert(traits_view(self.class_traits@) =~= traits_view(old(self).class_traits@).push(t));
            assert(traits_view(old(self).class_traits@).push(t) =~= traits_view(old(self).class_traits@) + seq![t]);
        }
    }

    /// Add the class traits named `name` to `known_traits`, each taking the
    /// place of the known traits it overrides, and enforcing the final and
    /// override attributes. Run it on the class hierarchy from top to bottom.
    pub fn lookup_class_traits(&self, name: &QName, known_traits: &mut Vec<Trait>) -> (r: Result<(), TraitLookupError>)
        ensures
            traits_view(final(known_traits)@) == lookup_run(name@, traits_view(old(known_traits)@), self@.class_traits).0,
            r == match lookup_run(name@, traits_view(old(known_traits)@), self@.class_traits).1 {
                Some(e) => Err(e),
                None => Ok(()),
            },
    {
        do_trait_lookup(name, known_traits, &self.class_traits)
    }

    /// The class trait occupying slot `id`: a later trait in the same slot
    /// takes the place of an earlier one when marked as an override; one
    /// that overlaps a final trait, or overlaps without being marked as an
    /// override, is an error.
    pub fn lookup_class_traits_by_slot(&self, id: u32) -> (r: Result<Option<Trait>, TraitLookupError>)
        ensures
            slot_result_matches(r, self@.class_traits, id),
    {
        do_trait_lookup_by_slot(id, &self.class_traits)
    }

    /// Whether the class defines a class trait with the given name.
    pub fn has_class_trait(&self, name: &QName) -> (r: bool)
        ensures
            r == exists|i: int| 0 <= i < self@.class_traits.len() && #[trigger] self@.class_traits[i].name == name@,
    {
        let r = has_trait(&self.class_traits, name);
        proof {
            if r {
                let i = choose|i: int| 0 <= i < self.class_traits@.len() && #[trigger] self.class_traits@[i]@.name == name@;
                assert(self@.class_traits[i].name == name@);
            }
        }
        r
    }

    /// The class traits of the class.
    pub fn class_traits(&self) -> (r: &Vec<Trait>)
        ensures
            traits_view(r@) == self@.class_traits,
    {
        &self.class_traits
    }

    /// The namespace of the first class trait with the given local name.
    pub fn resolve_any_class_trait(&self, local_name: &str) -> (r: Option<Namespace>)
        ensures
            match r {
                Some(ns) => find_local_name(self@.class_traits, local_name@) == Some(ns@),
                None => find_local_name(self@.class_traits, local_name@) is None,
            },
    {
        resolve_any_trait(&self.class_traits, local_name)
    }

    /// Define a trait on instances of the class.
    pub fn define_instance_trait(&mut self, my_trait: Trait)
        ensures
            final(self)@ == changed(old(self)@, ClassChange::InstanceTraits(seq![my_trait@])),
    {
        let ghost t = my_trait@;
        self.instance_traits.push(my_trait);
        proof {
            assert(traits_view(self.instance_traits@) =~= traits_view(old(self).instance_traits@).push(t));
            assert(traits_view(old(self).instance_traits@).push(t) =~= traits_view(old(self).instance_traits@) + seq![t]);
        }
    }

    /// Add the instance traits named `name` to `known_traits`, each taking the
    /// place of the known traits it overrides, and enforcing the final and
    /// override attributes. Run it on the class hierarchy from top to bottom.
    pub fn lookup_instance_traits(&self, name: &QName, known_traits: &mut Vec<Trait>) -> (r: Result<(), TraitLookupError>)
        ensures
            traits_view(final(known_traits)@) == lookup_run(name@, traits_view(old(known_traits)@), self@.instance_traits).0,
            r == match lookup_run(name@, traits_view(old(known_traits)@), self@.instance_traits).1 {
                Some(e) => Err(e),
                None => Ok(()),
            },
    {
        do_trait_lookup(name, known_traits, &self.instance_traits)
    }

    /// The instance trait occupying slot `id`: a later trait in the same slot
    /// takes the place of an earlier one when marked as an override; one
    /// that overlaps a final trait, or overlaps without being marked as an
    /// override, is an error.
    pub fn lookup_instance_traits_by_slot(&self, id: u32) -> (r: Result<Option<Trait>, TraitLookupError>)
        ensures
            slot_result_matches(r, self@.instance_traits, id),
    {
        do_trait_lookup_by_slot(id, &self.instance_traits)
    }

    /// Whether the class defines an instance trait with the given name.
    pub fn has_instance_trait(&self, name: &QName) -> (r: bool)
        ensures
            r == exists|i: int| 0 <= i < self@.instance_traits.len() && #[trigger] self@.instance_traits[i].name == name@,
    {
        let r = has_trait(&self.instance_traits, name);
        proof {
            if r {
                let i = choose|i: int| 0 <= i < self.instance_traits@.len() && #[trigger] self.instance_traits@[i]@.name == name@;
                assert(self@.instance_traits[i].name == name@);
            }
        }
        r
    }

    /// The instance traits of the class.
    pub fn instance_traits(&self) -> (r: &Vec<Trait>)
        ensures
            traits_view(r@) == self@.instance_traits,
    {
        &self.instance_traits
    }

    /// The namespace of the first instance trait with the given local name.
    pub fn resolve_any_instance_trait(&self, local_name: &str) -> (r: Option<Namespace>)
        ensures
            match r {
                Some(ns) => find_local_name(self@.instance_traits, local_name@) == Some(ns@),
                None => find_local_name(self@.instance_traits, local_name@) is None,
            },
    {
        resolve_any_trait(&self.instance_traits, local_name)
    }

    /// The instance deriver of the class.
    pub fn instance_deriver(&self) -> (r: Deriver)
        ensures
            r == self@.instance_deriver,
    {
        self.instance_deriver
    }

    /// Set the instance deriver of the class.
    pub fn set_instance_deriver(&mut self, deriver: Deriver)
        ensures
            final(self)@ == changed(old(self)@, ClassChange::InstanceDeriver(deriver)),
    {
        self.instance_deriver = deriver;
    }

    /// The instance initializer.
    pub fn instance_init(&self) -> (r: Method)
        ensures
            r == self@.instance_init,
    {
        self.instance_init
    }

    /// The native-code instance initializer.
    pub fn native_instance_init(&self) -> (r: Method)
        ensures
            r == self@.native_instance_init,
    {
        self.native_instance_init
    }

    /// Set the native-code instance initializer.
    pub fn set_native_instance_init(&mut self, new_native_init: Method)
        ensures
            final(self)@ == changed(old(self)@, ClassChange::NativeInstanceInit(new_native_init)),
    {
        self.native_instance_init = new_native_init;
    }

    /// The class initializer.
    pub fn class_init(&self) -> (r: Method)
        ensures
            r == self@.class_init,
    {
        self.class_init
    }

    /// Whether the class initializer has already run.
    pub fn is_class_initialized(&self) -> (r: bool)
        ensures
            r == self@.class_initialized,
    {
        self.class_initializer_called
    }

    /// Record that the class initializer has run.
    pub fn mark_class_initialized(&mut self)
        ensures
            final(self)@ == changed(old(self)@, ClassChange::ClassInitialized),
    {
        self.class_initializer_called = true;
    }

    /// The interfaces the class implements.
    pub fn interfaces(&self) -> (r: &Vec<Multiname>)
        ensures
            multinames_view(r@) == self@.interfaces,
    {
        &self.interfaces
    }

    /// Record that the class implements an interface.
    pub fn implements(&mut self, iface: Multiname)
        ensures
            final(self)@ == changed(old(self)@, ClassChange::Interface(iface@)),
    {
        let ghost v = iface@;
        self.interfaces.push(iface);
        proof {
            assert(multinames_view(self.interfaces@) =~= multinames_view(old(self).interfaces@).push(v));
        }
    }

    /// Whether the class is sealed (no dynamic properties).
    pub fn is_sealed(&self) -> (r: bool)
        ensures
            r == self@.attributes.sealed,
    {
        self.attributes.contains(ClassAttributes::sealed_only())
    }

    /// Whether the class is final (cannot be subclassed).
    pub fn is_final(&self) -> (r: bool)
        ensures
            r == self@.attributes.is_final,
    {
        self.attributes.contains(ClassAttributes::final_only())
    }

    /// Whether the class is an interface.
    pub fn is_interface(&self) -> (r: bool)
        ensures
            r == self@.attributes.interface,
    {
        self.attributes.contains(ClassAttributes::interface_only())
    }
}

proof fn lemma_kept(known: Seq<TraitView>, t: TraitView)
    ensures
        forall|j: int|
            0 <= j < kept(known, t).len() ==> !overlaps(t, #[trigger] kept(known, t)[j]) && known.contains(
                kept(known, t)[j],
            ),
        forall|i: int| 0 <= i < known.len() && !overlaps(t, #[trigger] known[i]) ==> kept(known, t).contains(known[i]),
    decreases known.len(),
{
    if known.len() > 0 {
        let init = known.drop_last();
        lemma_kept(init, t);
        let k = kept(known, t);
        let ki = kept(init, t);
        assert forall|j: int| 0 <= j < k.len() implies !overlaps(t, #[trigger] k[j]) && known.contains(k[j]) by {
            if j < ki.len() {
                assert(k[j] == ki[j]);
                let m = choose|m: int| 0 <= m < init.len() && init[m] == ki[j];
                assert(known[m] == init[m]);
            } else {
                assert(k[j] == known.last());
                assert(known[known.len() - 1] == known.last());
            }
        }
        assert forall|i: int| 0 <= i < known.len() && !overlaps(t, #[trigger] known[i]) implies k.contains(known[i]) by {
            if i < known.len() - 1 {
                assert(init[i] == known[i]);
                let m = choose|m: int| 0 <= m < ki.len() && ki[m] == init[i];
                assert(k[m] == ki[m]);
            } else {
                assert(k[k.len() - 1] == known.last());
            }
        }
    }
}

/// When a trait conflicts with the known ones: exactly when it overlaps a
/// final known trait, or overlaps a known trait without being marked as an
/// override.
pub proof fn law_conflict_condition(known: Seq<TraitView>, t: TraitView)
    ensures
        conflict(known, t) is None <==> forall|i: int|
            0 <= i < known.len() && overlaps(t, #[trigger] known[i]) ==> !known[i].is_final && t.is_override,
    decreases known.len(),
{
    if known.len() > 0 {
        law_conflict_condition(known.skip(1), t);
        assert forall|i: int| 0 <= i < known.skip(1).len() implies #[trigger] known.skip(1)[i] == known[i + 1] by {}
        if conflict(known, t) is None {
            assert forall|i: int| 0 <= i < known.len() && overlaps(t, #[trigger] known[i]) implies !known[i].is_final
                && t.is_override by {
                if i > 0 {
                    assert(known.skip(1)[i - 1] == known[i]);
                }
            }
        } else {
            if overlaps(t, known[0]) && (known[0].is_final || !t.is_override) {
            } else {
                let i = choose|i: int|
                    0 <= i < known.skip(1).len() && overlaps(t, #[trigger] known.skip(1)[i]) && !(!known.skip(1)[i].is_final
                        && t.is_override);
                assert(known[i + 1] == known.skip(1)[i]);
            }
        }
    }
}

/// An allowed override takes the place of the known traits it overlaps:
/// those go, the others stay in order, and the override comes last.
pub proof fn law_override_replaces(name: QNameView, known: Seq<TraitView>, t: TraitView)
    requires
        t.name == name,
        conflict(known, t) is None,
    ensures
        lookup_run(name, known, seq![t]) == (kept(known, t).push(t), None::<TraitLookupError>),
        forall|j: int|
            0 <= j < kept(known, t).len() ==> !overlaps(t, #[trigger] kept(known, t)[j]) && known.contains(
                kept(known, t)[j],
            ),
        forall|i: int| 0 <= i < known.len() && !overlaps(t, #[trigger] known[i]) ==> kept(known, t).contains(known[i]),
{
    lemma_kept(known, t);
    let all = seq![t];
    assert(all[0] == t);
    assert(all.skip(1) =~= Seq::<TraitView>::empty());
    assert(lookup_run(name, with_override(known, t), all.skip(1)) == (with_override(known, t), None::<TraitLookupError>));
}

proof fn lemma_slot_overlap_after_found(found: TraitView, all: Seq<TraitView>, id: u32, j: int)
    requires
        0 <= j < all.len(),
        slot_of(all[j].kind) == Some(id),
        !all[j].is_override,
    ensures
        slot_run(Some(found), all, id) is Err,
    decreases all.len(),
{
    if slot_of(all[0].kind) != Some(id) {
        assert(all.skip(1)[j - 1] == all[j]);
        lemma_slot_overlap_after_found(found, all.skip(1), id, j - 1);
    } else if !found.is_final && all[0].is_override {
        assert(j != 0);
        assert(all.skip(1)[j - 1] == all[j]);
        lemma_slot_overlap_after_found(all[0], all.skip(1), id, j - 1);
    }
}

/// Two traits in the same slot are an error unless the later one is marked
/// as an override.
pub proof fn law_slot_overlap_needs_override(all: Seq<TraitView>, id: u32, i: int, j: int)
    requires
        0 <= i < j < all.len(),
        slot_of(all[i].kind) == Some(id),
        slot_of(all[j].kind) == Some(id),
        !all[j].is_override,
    ensures
        slot_run(None, all, id) is Err,
    decreases all.len(),
{
    assert(all.skip(1)[j - 1] == all[j]);
    if slot_of(all[0].kind) != Some(id) {
        assert(all.skip(1)[i - 1] == all[i]);
        law_slot_overlap_needs_override(all.skip(1), id, i - 1, j - 1);
    } else {
        lemma_slot_overlap_after_found(all[0], all.skip(1), id, j - 1);
    }
}

/// Looking up a name that no trait has finds nothing and fails nothing.
pub proof fn law_lookup_unknown_name(name: QNameView, known: Seq<TraitView>, all: Seq<TraitView>)
    requires
        forall|i: int| 0 <= i < all.len() ==> (#[trigger] all[i]).name != name,
    ensures
        lookup_run(name, known, all) == (known, None::<TraitLookupError>),
    decreases all.len(),
{
    if all.len() > 0 {
        assert(all[0].name != name);
        assert forall|i: int| 0 <= i < all.skip(1).len() implies (#[trigger] all.skip(1)[i]).name != name by {
            assert(all.skip(1)[i] == all[i + 1]);
        }
        law_lookup_unknown_name(name, known, all.skip(1));
    }
}

/// The class entry of an ABC file that a class loads from.
#[derive(Clone, Debug)]
pub struct AbcClass {
    pub init_method: Method,
}

/// The instance entry of an ABC file that a class loads from, with its
/// names resolved against the file's constant pool.
#[derive(Clone, Debug)]
pub struct AbcInstance {
    pub name: QName,
    pub super_name: Option<Multiname>,
    pub protected_namespace: Option<Namespace>,
    pub interfaces: Vec<Multiname>,
    pub init_method: Method,
    pub is_sealed: bool,
    pub is_final: bool,
    pub is_interface: bool,
}

/// Why a class could not be loaded from an ABC file.
#[derive(Clone, Copy, Debug, PartialEq, Eq, Structural)]
pub enum ClassLoadError {
    /// The file has no class entry at the index.
    ClassIndex,
    /// The file has no instance entry at the index.
    InstanceIndex,
}

impl ClassLoadError {
    /// The error message.
    pub fn message(&self) -> (r: &'static str)
        ensures
            *self is ClassIndex ==> r@ == "LoadError: Class index not valid"@,
            *self is InstanceIndex ==> r@ == "LoadError: Instance index not valid"@,
    {
        match self {
            ClassLoadError::ClassIndex => "LoadError: Class index not valid",
            ClassLoadError::InstanceIndex => "LoadError: Instance index not valid",
        }
    }
}

/// The class that an ABC file's entries at one index describe: its traits
/// are still to be loaded, and its initializers double as native ones.
pub open spec fn abc_class_view(class: AbcClass, instance: AbcInstance) -> ClassView {
    ClassView {
        name: instance.name@,
        super_class: match instance.super_name {
            Some(m) => Some(m@),
            None => None,
        },
        attributes: ClassAttributes { sealed: instance.is_sealed, is_final: instance.is_final, interface: instance.is_interface },
        protected_namespace: match instance.protected_namespace {
            Some(n) => Some(n@),
            None => None,
        },
        interfaces: multinames_view(instance.interfaces@),
        instance_deriver: Deriver(0),
        instance_init: instance.init_method,
        native_instance_init: instance.init_method,
        instance_traits: Seq::empty(),
        class_init: class.init_method,
        class_initialized: false,
        class_traits: Seq::empty(),
        traits_loaded: false,
    }
}

fn duplicate_multinames(v: &Vec<Multiname>) -> (r: Vec<Multiname>)
    ensures
        multinames_view(r@) == multinames_view(v@),
{
    let mut out: Vec<Multiname> = Vec::new();
    let mut i: usize = 0;
    while i < v.len()
        invariant
            i <= v@.len(),
            multinames_view(out@) == multinames_view(v@.take(i as int)),
        decreases v@.len() - i,
    {
        let ghost prev = out@;
        let m = v[i].duplicate();
        out.push(m);
        proof {
            assert(multinames_view(out@) =~= multinames_view(prev).push(v@[i as int]@));
            assert(multinames_view(v@.take(i + 1)) =~= multinames_view(v@.take(i as int)).push(v@[i as int]@));
        }
        i = i + 1;
    }
    proof {
        assert(v@.take(i as int) =~= v@);
    }
    out
}

impl Class {
    /// Load the class at an index of an ABC file, without its traits.
    pub fn from_abc_index(classes: &[AbcClass], instances: &[AbcInstance], class_index: u32) -> (r: Result<Class, ClassLoadError>)
        ensures
            class_index >= classes@.len() ==> r == Err::<Class, ClassLoadError>(ClassLoadError::ClassIndex),
            class_index < classes@.len() && class_index >= instances@.len() ==> r == Err::<Class, ClassLoadError>(
                ClassLoadError::InstanceIndex,
            ),
            class_index < classes@.len() && class_index < instances@.len() ==> (r matches Ok(c) && c@
                == abc_class_view(classes@[class_index as int], instances@[class_index as int])),
    {
        let index = class_index as usize;
        if index >= classes.len() {
            return Err(ClassLoadError::ClassIndex);
        }
        if index >= instances.len() {
            return Err(ClassLoadError::InstanceIndex);
        }
        let abc_class = &classes[index];
        let abc_instance = &instances[index];
        let super_class = match &abc_instance.super_name {
            Some(m) => Some(m.duplicate()),
            None => None,
        };
        let protected_namespace = match &abc_instance.protected_namespace {
            Some(n) => Some(n.duplicate()),
            None => None,
        };
        let attributes = ClassAttributes {
            sealed: abc_instance.is_sealed,
            is_final: abc_instance.is_final,
            interface: abc_instance.is_interface,
        };
        Ok(
            Class::new_unloaded(
                abc_instance.name.duplicate(),
                super_class,
                attributes,
                protected_namespace,
                duplicate_multinames(&abc_instance.interfaces),
                abc_instance.init_method,
                abc_class.init_method,
            ),
        )
    }
}

/// A change made to a class after it is built, as the class's mutators
/// make it.
pub ghost enum ClassChange {
    /// `load_traits`.
    LoadTraits(Seq<TraitView>, Seq<TraitView>),
    /// `set_attributes`.
    Attributes(ClassAttributes),
    /// `set_protected_namespace`.
    ProtectedNamespace(NamespaceView),
    /// `define_class_trait` and the other definitions of class traits.
    ClassTraits(Seq<TraitView>),
    /// `define_instance_trait` and the other definitions of instance traits.
    InstanceTraits(Seq<TraitView>),
    /// `set_instance_deriver`.
    InstanceDeriver(Deriver),
    /// `set_native_instance_init`.
    NativeInstanceInit(Method),
    /// `mark_class_initialized`.
    ClassInitialized,
    /// `implements`.
    Interface(MultinameView),
}

/// The class after a change, as the `ensures` of the mutator that makes it
/// states.
pub open spec fn changed(c: ClassView, change: ClassChange) -> ClassView {
    match change {
        ClassChange::LoadTraits(it, ct) => if c.traits_loaded {
            c
        } else {
            ClassView {
                instance_traits: c.instance_traits + it,
                class_traits: c.class_traits + ct,
                traits_loaded: true,
                ..c
            }
        },
        ClassChange::Attributes(a) => ClassView { attributes: a, ..c },
        ClassChange::ProtectedNamespace(ns) => ClassView { protected_namespace: Some(ns), ..c },
        ClassChange::ClassTraits(ts) => ClassView { class_traits: c.class_traits + ts, ..c },
        ClassChange::InstanceTraits(ts) => ClassView { instance_traits: c.instance_traits + ts, ..c },
        ClassChange::InstanceDeriver(d) => ClassView { instance_deriver: d, ..c },
        ClassChange::NativeInstanceInit(m) => ClassView { native_instance_init: m, ..c },
        ClassChange::ClassInitialized => ClassView { class_initialized: true, ..c },
        ClassChange::Interface(m) => ClassView { interfaces: c.interfaces.push(m), ..c },
    }
}

/// The class after a sequence of changes, in order.
pub open spec fn changed_by(c: ClassView, changes: Seq<ClassChange>) -> ClassView
    decreases changes.len(),
{
    if changes.len() == 0 {
        c
    } else {
        changed_by(changed(c, changes[0]), changes.skip(1))
    }
}

proof fn lemma_changes_keep(c: ClassView, changes: Seq<ClassChange>)
    ensures
        (forall|i: int| 0 <= i < changes.len() ==> !(#[trigger] changes[i] is InstanceDeriver)) ==> changed_by(
            c,
            changes,
        ).instance_deriver == c.instance_deriver,
        (forall|i: int| 0 <= i < changes.len() ==> !(#[trigger] changes[i] is NativeInstanceInit)) ==> changed_by(
            c,
            changes,
        ).native_instance_init == c.native_instance_init,
        changed_by(c, changes).instance_init == c.instance_init,
    decreases changes.len(),
{
    if changes.len() > 0 {
        lemma_changes_keep(changed(c, changes[0]), changes.skip(1));
        assert forall|i: int| 0 <= i < changes.skip(1).len() implies #[trigger] changes.skip(1)[i] == changes[i + 1] by {}
    }
}

/// A class built with the implicit deriver (as `Class::new`,
/// `Class::from_abc_index` and `Class::for_activation_constr` build one)
/// keeps it through every change but `set_instance_deriver`.
pub proof fn law_implicit_deriver_kept_until_set(c: ClassView, changes: Seq<ClassChange>)
    requires
        is_implicit(c.instance_deriver),
        forall|i: int| 0 <= i < changes.len() ==> !(#[trigger] changes[i] is InstanceDeriver),
    ensures
        is_implicit(changed_by(c, changes).instance_deriver),
{
    lemma_changes_keep(c, changes);
}

/// A class whose native instance initializer is its instance initializer
/// (as `Class::new` and `Class::from_abc_index` build one) keeps them equal
/// through every change but `set_native_instance_init`.
pub proof fn law_native_init_is_instance_init_until_set(c: ClassView, changes: Seq<ClassChange>)
    requires
        c.native_instance_init == c.instance_init,
        forall|i: int| 0 <= i < changes.len() ==> !(#[trigger] changes[i] is NativeInstanceInit),
    ensures
        changed_by(c, changes).native_instance_init == changed_by(c, changes).instance_init,
{
    lemma_changes_keep(c, changes);
}

/// Defining class traits one after another lists them in the order they
/// were defined, after those the class had, and changes nothing else.
pub proof fn law_class_traits_in_definition_order(c: ClassView, defined: Seq<TraitView>)
    ensures
        changed_by(c, defined.map_values(|t: TraitView| ClassChange::ClassTraits(seq![t]))) == (ClassView {
            class_traits: c.class_traits + defined,
            ..c
        }),
    decreases defined.len(),
{
    let changes = defined.map_values(|t: TraitView| ClassChange::ClassTraits(seq![t]));
    if defined.len() == 0 {
        assert(c.class_traits + defined =~= c.class_traits);
    } else {
        let c1 = changed(c, changes[0]);
        law_class_traits_in_definition_order(c1, defined.skip(1));
        assert(changes.skip(1) =~= defined.skip(1).map_values(|t: TraitView| ClassChange::ClassTraits(seq![t])));
        assert(c.class_traits + seq![defined[0]] + defined.skip(1) =~= c.class_traits + defined);
    }
}

/// A class built with no traits and no interfaces (as `Class::new` builds
/// one), given class traits one by one, lists exactly those, in the order
/// they were defined, and still has no instance traits or interfaces.
pub proof fn law_new_class_lists_defined_traits(c: ClassView, defined: Seq<TraitView>)
    requires
        c.class_traits.len() == 0,
        c.instance_traits.len() == 0,
        c.interfaces.len() == 0,
    ensures
        changed_by(c, defined.map_values(|t: TraitView| ClassChange::ClassTraits(seq![t]))).class_traits == defined,
        changed_by(c, defined.map_values(|t: TraitView| ClassChange::ClassTraits(seq![t]))).instance_traits.len() == 0,
        changed_by(c, defined.map_values(|t: TraitView| ClassChange::ClassTraits(seq![t]))).interfaces.len() == 0,
{
    law_class_traits_in_definition_order(c, defined);
    assert(c.class_traits + defined =~= defined);
}

/// A trait defined on instances is then found by name, however the class
/// changes afterwards (no change removes an instance trait), and defining
/// it leaves the class traits as they were.
pub proof fn law_defined_instance_trait_is_found(c: ClassView, t: TraitView, changes: Seq<ClassChange>)
    ensures
        exists|i: int|
            0 <= i < changed_by(changed(c, ClassChange::InstanceTraits(seq![t])), changes).instance_traits.len()
                && #[trigger] changed_by(changed(c, ClassChange::InstanceTraits(seq![t])), changes).instance_traits[i].name
                == t.name,
        changed(c, ClassChange::InstanceTraits(seq![t])).class_traits == c.class_traits,
{
    let c1 = changed(c, ClassChange::InstanceTraits(seq![t]));
    let k = c.instance_traits.len() as int;
    assert(c1.instance_traits[k] == t);
    lemma_instance_prefix_kept(c1, changes);
    assert(changed_by(c1, changes).instance_traits[k] == t);
    assert(changed_by(c1, changes).instance_traits[k].name == t.name);
}

proof fn lemma_instance_prefix_kept(c: ClassView, changes: Seq<ClassChange>)
    ensures
        changed_by(c, changes).instance_traits.len() >= c.instance_traits.len(),
        forall|i: int|
            0 <= i < c.instance_traits.len() ==> #[trigger] changed_by(c, changes).instance_traits[i]
                == c.instance_traits[i],
    decreases changes.len(),
{
    if changes.len() > 0 {
        let c1 = changed(c, changes[0]);
        lemma_instance_prefix_kept(c1, changes.skip(1));
        assert(c1.instance_traits.len() >= c.instance_traits.len());
        assert forall|i: int| 0 <= i < c.instance_traits.len() implies #[trigger] c1.instance_traits[i]
            == c.instance_traits[i] by {}
    }
}

/// Why a class object could not be made from a class.
#[derive(Clone, Copy, Debug, PartialEq, Eq, Structural)]
pub enum ClassObjectError {
    /// The base class is final and cannot be extended.
    FinalBase,
    /// The base class is an interface and cannot be extended.
    InterfaceBase,
    /// An interface name of the class does not resolve.
    UnresolvedInterface,
    /// An interface name of the class resolves to a class that is not an
    /// interface.
    NotAnInterface,
}

/// Whether a class may extend `base`: not when `base` is final or an
/// interface. A class with no base class may be made.
pub fn check_base_class(base: Option<&Class>) -> (r: Result<(), ClassObjectError>)
    ensures
        r == match base {
            None => Ok(()),
            Some(b) => if b@.attributes.is_final {
                Err(ClassObjectError::FinalBase)
            } else if b@.attributes.interface {
                Err(ClassObjectError::InterfaceBase)
            } else {
                Ok(())
            },
        },
{
    match base {
        None => Ok(()),
        Some(b) => {
            if b.is_final() {
                Err(ClassObjectError::FinalBase)
            } else if b.is_interface() {
                Err(ClassObjectError::InterfaceBase)
            } else {
                Ok(())
            }
        },
    }
}

/// The check on one interface name of a class, given what it resolved to:
/// `None` where it did not resolve, `Some(None)` where it resolved to an
/// object that is not a class, `Some(Some(c))` where it resolved to class
/// `c`.
pub open spec fn interface_check(resolved: Option<Option<ClassView>>) -> Result<(), ClassObjectError> {
    match resolved {
        None => Err(ClassObjectError::UnresolvedInterface),
        Some(Some(c)) => if !c.attributes.interface {
            Err(ClassObjectError::NotAnInterface)
        } else {
            Ok(())
        },
        Some(None) => Ok(()),
    }
}

/// The view of a resolved interface name.
pub open spec fn resolved_view(resolved: Option<Option<&Class>>) -> Option<Option<ClassView>> {
    match resolved {
        None => None,
        Some(None) => Some(None),
        Some(Some(c)) => Some(Some(c@)),
    }
}

/// Check one interface name of a class, given what it resolved to: it
/// must resolve, and a class it resolves to must be an interface.
pub fn check_interface(resolved: Option<Option<&Class>>) -> (r: Result<(), ClassObjectError>)
    ensures
        r == interface_check(resolved_view(resolved)),
{
    match resolved {
        None => Err(ClassObjectError::UnresolvedInterface),
        Some(None) => Ok(()),
        Some(Some(c)) => {
            if !c.is_interface() {
                Err(ClassObjectError::NotAnInterface)
            } else {
                Ok(())
            }
        },
    }
}

/// The first failing check among the interface names of a class, in order.
pub open spec fn interfaces_check(resolved: Seq<Option<Option<ClassView>>>) -> Result<(), ClassObjectError>
    decreases resolved.len(),
{
    if resolved.len() == 0 {
        Ok(())
    } else {
        match interface_check(resolved[0]) {
            Err(e) => Err(e),
            Ok(()) => interfaces_check(resolved.skip(1)),
        }
    }
}

/// Check the interface names of a class in order, given what each resolved
/// to: the first that fails decides.
pub fn check_interfaces(resolved: &Vec<Option<Option<&Class>>>) -> (r: Result<(), ClassObjectError>)
    ensures
        r == interfaces_check(resolved@.map_values(|x: Option<Option<&Class>>| resolved_view(x))),
{
    let ghost rv = resolved@.map_values(|x: Option<Option<&Class>>| resolved_view(x));
    let mut i: usize = 0;
    proof {
        assert(rv.skip(0) =~= rv);
    }
    while i < resolved.len()
        invariant
            i <= resolved@.len(),
            rv == resolved@.map_values(|x: Option<Option<&Class>>| resolved_view(x)),
            interfaces_check(rv) == interfaces_check(rv.skip(i as int)),
        decreases resolved.len() - i,
    {
        proof {
            assert(rv.skip(i as int)[0] == resolved_view(resolved@[i as int]));
            assert(rv.skip(i as int).skip(1) =~= rv.skip(i + 1));
        }
        match check_interface(resolved[i]) {
            Err(e) => {
                return Err(e);
            },
            Ok(()) => {},
        }
        i = i + 1;
    }
    proof {
        assert(rv.skip(i as int) =~= Seq::<Option<Option<ClassView>>>::empty());
    }
    Ok(())
}

/// Start running the class initializer of a class: it runs only once, so
/// the class is marked initialized before it runs. Says whether the
/// initializer is to run now.
pub fn begin_class_init(class: &mut Class) -> (run: bool)
    ensures
        run == !old(class)@.class_initialized,
        final(class)@ == (ClassView { class_initialized: true, ..old(class)@ }),
{
    let run = !class.is_class_initialized();
    class.mark_class_initialized();
    run
}

} // verus!
