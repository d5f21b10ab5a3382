//! The decisions made when a class object is built from a loaded class.

use crate::avm2::class::{
    changed, check_base_class, check_interfaces, interfaces_check, resolved_view, Class, ClassChange, ClassObjectError,
    ClassView,
};
use vstd::prelude::*;

verus! {

/// What building a class object from a class decided: whether the class
/// initializer runs now. The object itself is allocated by the runtime.
#[derive(Clone, Copy, Debug, PartialEq, Eq, Structural)]
pub struct ClassObject {
    /// The class initializer runs during the build: the class had not been
    /// initialized before.
    pub runs_class_init: bool,
}

/// The outcome of building a class object: the base class may not be final
/// or an interface, then every interface name must resolve to an
/// interface, in order; the first failure decides.
pub open spec fn class_object_check(
    base: Option<ClassView>,
    interfaces: Seq<Option<Option<ClassView>>>,
) -> Result<(), ClassObjectError> {
    match base {
        Some(b) if b.attributes.is_final => Err(ClassObjectError::FinalBase),
        Some(b) if b.attributes.interface => Err(ClassObjectError::InterfaceBase),
        _ => interfaces_check(interfaces),
    }
}

impl ClassObject {
    /// Build a class object from `class`, given its base class (`None` for a
    /// class without one) and what each of its interface names resolved to.
    /// Where the checks pass, the class initializer runs during the build,
    /// once: a class not yet initialized is marked so before it runs. Where
    /// a check fails, the class is left as it was.
    pub fn from_class(
        class: &mut Class,
        base: Option<&Class>,
        interfaces: &Vec<Option<Option<&Class>>>,
    ) -> (r: Result<ClassObject, ClassObjectError>)
        ensures
            ({
                let check = class_object_check(
                    match base {
                        Some(b) => Some(b@),
                        None => None,
                    },
                    interfaces@.map_values(|x: Option<Option<&Class>>| resolved_view(x)),
                );
                match check {
                    Err(e) => r == Err::<ClassObject, ClassObjectError>(e) && final(class)@ == old(class)@,
                    Ok(()) => r == Ok::<ClassObject, ClassObjectError>(
                        ClassObject { runs_class_init: !old(class)@.class_initialized },
                    ) && final(class)@ == changed(old(class)@, ClassChange::ClassInitialized),
                }
            }),
    {
        match check_base_class(base) {
            Err(e) => {
                return Err(e);
            },
            Ok(()) => {},
        }
        match check_interfaces(interfaces) {
            Err(e) => {
                return Err(e);
            },
            Ok(()) => {},
        }
        let runs = !class.is_class_initialized();
        class.mark_class_initialized();
        Ok(ClassObject { runs_class_init: runs })
    }
}

} // verus!
