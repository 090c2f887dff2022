//! Runtime type identity of foreign objects, and casts between their types.

use vstd::prelude::*;
use crate::gtype::{check_instance_is_a, named, or_empty, GType};
use crate::refcount::{Refcount, RefcountFuncs};
use crate::runtime::Runtime;
use crate::wrap::{from_raw, Wrapper};

verus! {

/// A type with a runtime type identity: its instances carry a type tag, and
/// the type knows its own.
pub trait ObjectType: Wrapper {
    /// The tag that the foreign runtime knows the type by. It does not
    /// change once computed.
    open spec fn type_tag() -> GType {
        arbitrary()
    }

    fn get_type() -> (type_id: GType)
        ensures
            type_id == Self::type_tag(),
    ;
}

/// Every type with a runtime type identity is counted by the object
/// runtime's own pair of functions.
impl<T: ObjectType> Refcount for T {
    open spec fn funcs() -> RefcountFuncs {
        RefcountFuncs::Object
    }

    fn refcount_funcs(&self) -> (funcs: RefcountFuncs) {
        RefcountFuncs::Object
    }
}

/// The capability to be used as a `T`: the layout of `T` is a prefix of the
/// layout of the implementing type, so the same address serves for both and
/// nothing needs to be checked at run time.
pub trait Upcast<T: Wrapper>: Wrapper {
    fn upcast(&self) -> (sup: &T)
        ensures
            sup.raw() == self.raw(),
    ;
}

impl<T: Wrapper> Upcast<T> for T {
    fn upcast(&self) -> (sup: &T) {
        self
    }
}

/// The tag of a type with a runtime type identity.
pub fn type_of<T: ObjectType>() -> (type_id: GType)
    ensures
        type_id == T::type_tag(),
{
    T::get_type()
}

/// Whether the live object behind `object` can be used as a `U`, by the tag
/// that the object itself carries.
pub fn is_instance_of<T: ObjectType, U: ObjectType, R: Runtime>(rt: &R, object: &T) -> (is_a: bool)
    requires
        rt.state().live(object.raw()),
    ensures
        is_a == rt.state().instance_is_a(object.raw(), U::type_tag()),
{
    check_instance_is_a(rt, object, type_of::<U>())
}

/// A cast that was refused: the object is no instance of the target type.
#[derive(Clone, Copy, PartialEq, Eq, Structural, Debug)]
pub struct InvalidCast {
    /// The type that the cast aimed at.
    pub target: GType,
}

impl InvalidCast {
    /// What to tell of the refused cast: it names the type that the cast
    /// aimed at, where the runtime knows a name for it.
    pub fn message<R: Runtime>(&self, rt: &R) -> (text: String)
        ensures
            text@ == "invalid cast to type "@ + or_empty(
                named(rt.state().g_type_name(self.target)),
            ),
    {
        let mut text = "invalid cast to type ".to_owned();
        if let Some(name) = self.target.name(rt) {
            text.append(name.as_str());
        } else {
            assert(text@ + Seq::<char>::empty() =~= text@);
        }
        text
    }
}

/// Reads `source` as a `U`. The object must be an instance of `U`: a caller
/// that cannot show it tests with `is_instance_of`, or calls `try_cast`.
pub fn cast<T: ObjectType, U: ObjectType, R: Runtime>(rt: &R, source: &T) -> (target: U)
    requires
        rt.state().instance_is_a(source.raw(), U::type_tag()),
    ensures
        target.raw() == source.raw(),
{
    from_raw(source.as_ptr())
}

/// Reads `source` as a `U` if the object is an instance of `U`, and refuses
/// the cast if it is not.
pub fn try_cast<T: ObjectType, U: ObjectType, R: Runtime>(rt: &R, source: &T) -> (res: Result<
    U,
    InvalidCast,
>)
    requires
        rt.state().live(source.raw()),
    ensures
        res is Ok <==> rt.state().instance_is_a(source.raw(), U::type_tag()),
        res matches Ok(target) ==> target.raw() == source.raw(),
        res matches Err(e) ==> e.target == U::type_tag(),
{
    if is_instance_of::<T, U, R>(rt, source) {
        Ok(cast::<T, U, R>(rt, source))
    } else {
        Err(InvalidCast { target: type_of::<U>() })
    }
}

} // verus!
