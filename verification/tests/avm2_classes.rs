//! AS3 class metadata, trait lookups, and vector storage.

use ruffle_core::avm2::class::{
    begin_class_init, check_base_class, check_interface, check_interfaces, implicit_deriver, AbcClass, AbcInstance, Class,
    ClassAttributes, ClassLoadError, ClassObjectError, Deriver, TraitLookupError,
};
use ruffle_core::avm2::class_object::ClassObject;
use ruffle_core::avm2::names::{Multiname, Namespace, QName};
use ruffle_core::avm2::traits::{Method, Trait, TraitKind};
use ruffle_core::avm2::value::Value;
use ruffle_core::avm2::vector::{join, Coercion, VectorError, VectorStorage};

fn public(name: &str) -> QName {
    QName::new(Namespace::public(), name)
}

fn class() -> Class {
    Class::new(public("Thing"), Some(Multiname::from_qname(&public("Object"))), Method { id: 1 }, Method { id: 2 })
}

#[test]
fn class_starts_plain() {
    let c = class();
    assert!(!c.is_sealed() && !c.is_final() && !c.is_interface());
    assert!(!c.is_class_initialized());
    assert_eq!(c.instance_init(), Method { id: 1 });
    assert_eq!(c.native_instance_init(), Method { id: 1 });
    assert_eq!(c.class_init(), Method { id: 2 });
    assert_eq!(c.instance_deriver(), Deriver(0));
}

#[test]
fn attributes_and_initialization() {
    let mut c = class();
    c.set_attributes(ClassAttributes::sealed_only().union(ClassAttributes::final_only()));
    assert!(c.is_sealed() && c.is_final() && !c.is_interface());
    c.mark_class_initialized();
    assert!(c.is_class_initialized());
    assert!(ClassAttributes::sealed_only().union(ClassAttributes::interface_only()).contains(ClassAttributes::interface_only()));
}

#[test]
fn overriding_a_final_method_fails() {
    let mut c = class();
    c.define_instance_trait(Trait::with_attributes(public("f"), true, false, Trait::from_method(public("f"), Method { id: 3 }).kind().clone()));
    c.define_instance_trait(Trait::with_attributes(public("f"), false, true, Trait::from_method(public("f"), Method { id: 4 }).kind().clone()));
    let mut known = vec![];
    assert_eq!(c.lookup_instance_traits(&public("f"), &mut known), Err(TraitLookupError::OverrideFinal));
    assert_eq!(known.len(), 1);
}

#[test]
fn redefinition_needs_override() {
    let mut c = class();
    c.define_instance_trait(Trait::from_method(public("g"), Method { id: 3 }));
    c.define_instance_trait(Trait::from_method(public("g"), Method { id: 4 }));
    let mut known = vec![];
    assert_eq!(c.lookup_instance_traits(&public("g"), &mut known), Err(TraitLookupError::NotMarkedOverride));
    assert_eq!(TraitLookupError::NotMarkedOverride.message(), "Definition override is not marked as override");
}

#[test]
fn getter_and_setter_share_a_name() {
    let mut c = class();
    c.define_public_builtin_instance_properties(&[("size", Some(Method { id: 5 }), Some(Method { id: 6 }))]);
    let mut known = vec![];
    assert_eq!(c.lookup_instance_traits(&public("size"), &mut known), Ok(()));
    assert_eq!(known.len(), 2);
    assert!(c.has_instance_trait(&public("size")));
    assert!(!c.has_instance_trait(&public("other")));
}

#[test]
fn class_constants_have_slots() {
    let mut c = class();
    c.define_public_constant_uint_class_traits(&[("MAX", 7), ("MIN", 0)]);
    assert!(c.has_class_trait(&public("MIN")));
    assert_eq!(c.class_traits().len(), 2);
    assert_eq!(c.resolve_any_class_trait("MAX"), Some(Namespace::public()));
    assert_eq!(c.resolve_any_class_trait("nope"), None);
}

#[test]
fn implicit_deriver_is_the_nearest() {
    assert_eq!(implicit_deriver(&vec![Deriver(0), Deriver(0), Deriver(4), Deriver(2)]), Some(Deriver(4)));
    assert_eq!(implicit_deriver(&vec![Deriver(0)]), None);
}

#[test]
fn vector_storage_reads_holes_as_defaults() {
    let mut v = VectorStorage::new(2, false, public("int"));
    assert_eq!(VectorStorage::coercion(&public("uint")), Coercion::ToUint);
    assert_eq!(v.get(0), Ok(Value::Integer(0)));
    assert_eq!(v.set(1, Some(Value::Integer(5))), Ok(()));
    assert_eq!(v.get(1), Ok(Value::Integer(5)));
    assert_eq!(v.get(2), Err(VectorError::OutOfRange(2)));
    assert_eq!(v.set(2, None), Err(VectorError::OutOfRange(2)));
    v.push(Some(Value::Integer(9)));
    assert_eq!(v.length(), 3);
    assert_eq!(v.resize(1), Ok(()));
    assert_eq!(v.length(), 1);
    v.set_is_fixed(true);
    assert_eq!(v.resize(4), Err(VectorError::Fixed));
    assert_eq!(v.length(), 1);
}

#[test]
fn unknown_names_find_nothing() {
    let mut c = class();
    c.define_instance_trait(Trait::from_method(public("f"), Method { id: 3 }));
    let mut known = vec![Trait::from_method(public("g"), Method { id: 9 })];
    assert_eq!(c.lookup_instance_traits(&public("nothing"), &mut known), Ok(()));
    assert_eq!(known, vec![Trait::from_method(public("g"), Method { id: 9 })]);
    let mut fresh = vec![];
    assert_eq!(c.lookup_instance_traits(&public("f"), &mut fresh), Ok(()));
    assert_eq!(fresh, vec![Trait::from_method(public("f"), Method { id: 3 })]);
}

#[test]
fn number_constants_hold_their_bits() {
    let mut c = class();
    c.define_public_constant_number_class_traits(&[("HALF", 0.5f64.to_bits())]);
    assert!(c.has_class_trait(&public("HALF")));
    assert_eq!(c.class_traits()[0].name(), &public("HALF"));
}

#[test]
fn classes_load_from_abc_entries() {
    let classes = vec![AbcClass { init_method: Method { id: 20 } }];
    let instances = vec![AbcInstance {
        name: public("Sprite"),
        super_name: Some(Multiname::from_qname(&public("DisplayObject"))),
        protected_namespace: None,
        interfaces: vec![Multiname::from_qname(&public("IEventDispatcher"))],
        init_method: Method { id: 10 },
        is_sealed: true,
        is_final: false,
        is_interface: false,
    }];
    let c = Class::from_abc_index(&classes, &instances, 0).unwrap();
    assert_eq!(c.name(), &public("Sprite"));
    assert!(c.is_sealed() && !c.is_final());
    assert_eq!(c.instance_init(), Method { id: 10 });
    assert_eq!(c.class_init(), Method { id: 20 });
    assert_eq!(c.interfaces().len(), 1);
    assert_eq!(Class::from_abc_index(&classes, &instances, 1).unwrap_err(), ClassLoadError::ClassIndex);
    assert_eq!(Class::from_abc_index(&classes, &[], 0).unwrap_err(), ClassLoadError::InstanceIndex);
    assert_eq!(ClassLoadError::ClassIndex.message(), "LoadError: Class index not valid");
}

#[test]
fn an_allowed_override_replaces_the_known_trait() {
    let mut c = class();
    let base = Trait::from_method(public("f"), Method { id: 3 });
    let over = Trait::with_attributes(public("f"), false, true, TraitKind::Method { disp_id: 0, method: Method { id: 4 } });
    c.define_instance_trait(over.clone());
    let other = Trait::from_method(public("g"), Method { id: 9 });
    let mut known = vec![other.clone(), base];
    assert_eq!(c.lookup_instance_traits(&public("f"), &mut known), Ok(()));
    assert_eq!(known, vec![other, over]);
}

#[test]
fn a_slot_reused_without_override_is_an_error() {
    let slot = |id: u32, is_override: bool| {
        Trait::with_attributes(
            public("s"),
            false,
            is_override,
            TraitKind::Slot { slot_id: id, slot_type: Multiname::from_qname(&public("int")), default_value: None },
        )
    };
    let mut c = class();
    c.define_instance_trait(slot(3, false));
    c.define_instance_trait(slot(3, false));
    assert_eq!(c.lookup_instance_traits_by_slot(3), Err(TraitLookupError::NotMarkedOverride));

    let mut d = class();
    d.define_class_trait(slot(3, false));
    d.define_class_trait(slot(4, false));
    d.define_class_trait(slot(3, true));
    assert_eq!(d.lookup_class_traits_by_slot(3), Ok(Some(slot(3, true))));
    assert_eq!(d.lookup_class_traits_by_slot(5), Ok(None));
}

#[test]
fn base_classes_must_be_extensible() {
    let plain = class();
    let mut sealed_final = class();
    sealed_final.set_attributes(ClassAttributes::final_only());
    let mut iface = class();
    iface.set_attributes(ClassAttributes::interface_only());
    assert_eq!(check_base_class(None), Ok(()));
    assert_eq!(check_base_class(Some(&plain)), Ok(()));
    assert_eq!(check_base_class(Some(&sealed_final)), Err(ClassObjectError::FinalBase));
    assert_eq!(check_base_class(Some(&iface)), Err(ClassObjectError::InterfaceBase));
}

#[test]
fn interfaces_must_resolve_to_interfaces() {
    let plain = class();
    let mut iface = class();
    iface.set_attributes(ClassAttributes::interface_only());
    assert_eq!(check_interface(None), Err(ClassObjectError::UnresolvedInterface));
    assert_eq!(check_interface(Some(None)), Ok(()));
    assert_eq!(check_interface(Some(Some(&iface))), Ok(()));
    assert_eq!(check_interface(Some(Some(&plain))), Err(ClassObjectError::NotAnInterface));
    assert_eq!(check_interfaces(&vec![Some(Some(&iface)), Some(Some(&plain)), None]), Err(ClassObjectError::NotAnInterface));
    assert_eq!(check_interfaces(&vec![Some(Some(&iface)), Some(None)]), Ok(()));
}

#[test]
fn the_class_initializer_runs_once() {
    let mut c = class();
    assert!(begin_class_init(&mut c));
    assert!(c.is_class_initialized());
    assert!(!begin_class_init(&mut c));
    assert!(c.is_class_initialized());
}

#[test]
fn building_a_class_object_checks_then_initializes_once() {
    let mut c = class();
    let base = class();
    let mut fin = class();
    fin.set_attributes(ClassAttributes::final_only());
    let mut iface = class();
    iface.set_attributes(ClassAttributes::interface_only());

    assert_eq!(ClassObject::from_class(&mut c, Some(&fin), &vec![]), Err(ClassObjectError::FinalBase));
    assert_eq!(ClassObject::from_class(&mut c, Some(&iface), &vec![]), Err(ClassObjectError::InterfaceBase));
    assert_eq!(ClassObject::from_class(&mut c, Some(&base), &vec![None]), Err(ClassObjectError::UnresolvedInterface));
    assert!(!c.is_class_initialized());
    assert_eq!(
        ClassObject::from_class(&mut c, Some(&base), &vec![Some(Some(&iface))]),
        Ok(ClassObject { runs_class_init: true })
    );
    assert!(c.is_class_initialized());
    assert_eq!(ClassObject::from_class(&mut c, None, &vec![]), Ok(ClassObject { runs_class_init: false }));
}

#[test]
fn join_separates_items_and_empties_holes() {
    let items = vec![Some("1".to_string()), None, Some("3".to_string())];
    assert_eq!(join(&items, None), "1,,3");
    assert_eq!(join(&items, Some(" - ")), "1 -  - 3");
    assert_eq!(join(&vec![], None), "");
    assert_eq!(join(&vec![None], Some("x")), "");
}
