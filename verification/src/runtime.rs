//! The foreign runtime as the library sees it: the few foreign functions
//! that the handles and casts rest on, and a mathematical model of the state
//! that those functions read and change.

use vstd::prelude::*;
use crate::gstr::{c_str, is_c_str};
use crate::gtype::{GType, INVALID, NONE};
use crate::quark::Quark;
use crate::refcount::RefcountFuncs;
use crate::types::guint;
use crate::wrap::RawPtr;

verus! {

/// What the foreign runtime holds, as far as this library depends on it.
pub struct State {
    /// The live objects, each with the number of references held on it.
    pub counts: Map<RawPtr, nat>,
    /// The type tag embedded in each live typed object.
    pub types: Map<RawPtr, GType>,
    /// The "is-a" relation of the type hierarchy: `(t, u)` is in it when an
    /// instance of `t` can be used as an instance of `u`.
    pub conforms: Set<(GType, GType)>,
    /// The names of the registered types.
    pub names: Map<GType, Seq<u8>>,
    /// The interned strings: quark `n` stands for the string at `n - 1`.
    pub quarks: Seq<Seq<u8>>,
    /// The objects destroyed so far, in the order in which they went.
    pub destroyed: Seq<RawPtr>,
}

/// Where `name` first occurs in `names`, or the length of `names` if it does
/// not occur.
pub open spec fn position(names: Seq<Seq<u8>>, name: Seq<u8>) -> nat
    decreases names.len(),
{
    if names.len() == 0 {
        0
    } else if names[0] == name {
        0
    } else {
        1 + position(names.drop_first(), name)
    }
}

/// Where a string is found is where it stands first.
pub proof fn lemma_position(names: Seq<Seq<u8>>, name: Seq<u8>)
    ensures
        position(names, name) <= names.len(),
        position(names, name) < names.len() ==> names[position(names, name) as int] == name,
        forall|j: int| 0 <= j < position(names, name) ==> names[j] != name,
    decreases names.len(),
{
    if names.len() > 0 && names[0] != name {
        let rest = names.drop_first();
        lemma_position(rest, name);
        assert forall|j: int| 0 <= j < position(names, name) implies names[j] != name by {
            if j > 0 {
                assert(names[j] == rest[j - 1]);
            }
        }
    }
}

/// A string stands first at `i` if it stands at `i` and nowhere before.
pub proof fn lemma_position_is(names: Seq<Seq<u8>>, name: Seq<u8>, i: int)
    requires
        0 <= i <= names.len(),
        forall|j: int| 0 <= j < i ==> names[j] != name,
        i < names.len() ==> names[i] == name,
    ensures
        position(names, name) == i,
{
    lemma_position(names, name);
    let found = position(names, name) as int;
    if found < i {
        assert(names[found] != name);
    }
}

impl State {
    /// A live object is at `ptr`.
    pub open spec fn live(self, ptr: RawPtr) -> bool {
        self.counts.contains_key(ptr) && self.counts[ptr] > 0
    }

    /// The references held on the object at `ptr`; none where no object
    /// lives.
    pub open spec fn ref_count(self, ptr: RawPtr) -> nat {
        if self.live(ptr) {
            self.counts[ptr]
        } else {
            0
        }
    }

    /// The state after one more reference is taken on the object at `ptr`.
    pub open spec fn inc(self, ptr: RawPtr) -> State {
        State { counts: self.counts.insert(ptr, self.counts[ptr] + 1), ..self }
    }

    /// The state after one reference on the object at `ptr` is given up.
    /// With its last reference the object is destroyed.
    pub open spec fn dec(self, ptr: RawPtr) -> State {
        if self.counts[ptr] > 1 {
            State { counts: self.counts.insert(ptr, (self.counts[ptr] - 1) as nat), ..self }
        } else {
            State {
                counts: self.counts.remove(ptr),
                types: self.types.remove(ptr),
                destroyed: self.destroyed.push(ptr),
                ..self
            }
        }
    }

    /// The live object at `ptr` can be used as an instance of `type_id`.
    pub open spec fn instance_is_a(self, ptr: RawPtr, type_id: GType) -> bool {
        self.live(ptr) && self.types.contains_key(ptr) && self.conforms.contains(
            (self.types[ptr], type_id),
        )
    }

    /// The type system is in order: every object that carries a type tag
    /// carries that of a registered type, and every registered type
    /// conforms to itself and to neither of the two tags that stand for no
    /// type at all.
    pub open spec fn sound(self) -> bool {
        &&& forall|p: RawPtr|
            self.live(p) && #[trigger] self.types.contains_key(p) ==> self.names.contains_key(
                self.types[p],
            )
        &&& forall|t: GType| #[trigger]
            self.names.contains_key(t) ==> {
                &&& self.conforms.contains((t, t))
                &&& !self.conforms.contains((t, GType(INVALID)))
                &&& !self.conforms.contains((t, GType(NONE)))
            }
    }

    /// The name that `type_id` was registered under.
    pub open spec fn g_type_name(self, type_id: GType) -> Option<Seq<u8>> {
        if self.names.contains_key(type_id) {
            Some(self.names[type_id])
        } else {
            None
        }
    }

    /// The raw quark that stands for `name`, now or once it is interned.
    pub open spec fn quark_id(self, name: Seq<u8>) -> nat {
        position(self.quarks, name) + 1
    }

    /// The state after `name` is interned.
    pub open spec fn intern(self, name: Seq<u8>) -> State {
        if position(self.quarks, name) < self.quarks.len() {
            self
        } else {
            State { quarks: self.quarks.push(name), ..self }
        }
    }

    /// The string that the quark stands for.
    pub open spec fn quark_name(self, quark: Quark) -> Option<Seq<u8>> {
        if 1 <= quark.to_raw() <= self.quarks.len() {
            Some(self.quarks[quark.to_raw() - 1])
        } else {
            None
        }
    }
}

/// To take and to give up references, and to intern strings, leaves the
/// type system in order.
pub proof fn lemma_sound_is_kept(state: State, ptr: RawPtr, name: Seq<u8>)
    requires
        state.sound(),
    ensures
        state.live(ptr) ==> state.inc(ptr).sound(),
        state.live(ptr) ==> state.dec(ptr).sound(),
        state.intern(name).sound(),
{
    if state.live(ptr) {
        let inc = state.inc(ptr);
        assert forall|p: RawPtr| inc.live(p) && #[trigger] inc.types.contains_key(
            p,
        ) implies inc.names.contains_key(inc.types[p]) by {
            assert(state.live(p) && state.types.contains_key(p));
        }
        let dec = state.dec(ptr);
        assert forall|p: RawPtr| dec.live(p) && #[trigger] dec.types.contains_key(
            p,
        ) implies dec.names.contains_key(dec.types[p]) by {
            assert(state.live(p) && state.types.contains_key(p));
        }
    }
    let interned = state.intern(name);
    assert forall|p: RawPtr| interned.live(p) && #[trigger] interned.types.contains_key(
        p,
    ) implies interned.names.contains_key(interned.types[p]) by {
        assert(state.live(p) && state.types.contains_key(p));
    }
}

/// In a type system that is in order, every object that carries a type tag
/// is an instance of its own type, and none is an instance of either of
/// the two tags that stand for no type at all.
pub proof fn lemma_instance_of_own_type(state: State, ptr: RawPtr)
    requires
        state.sound(),
        state.live(ptr),
        state.types.contains_key(ptr),
    ensures
        state.instance_is_a(ptr, state.types[ptr]),
        !state.instance_is_a(ptr, GType(INVALID)),
        !state.instance_is_a(ptr, GType(NONE)),
{
    assert(state.names.contains_key(state.types[ptr]));
}

/// To intern a string gives it the quark that it was going to have, under
/// which it is then known; to intern it once more changes nothing and
/// gives the same quark again.
pub proof fn lemma_intern(state: State, name: Seq<u8>)
    requires
        state.quark_id(name) <= u32::MAX,
    ensures
        state.intern(name).quark_id(name) == state.quark_id(name),
        state.intern(name).quark_name(Quark(state.quark_id(name) as u32)) == Some(name),
        state.intern(name).intern(name) == state.intern(name),
{
    lemma_position(state.quarks, name);
    let i = position(state.quarks, name) as int;
    lemma_position_is(state.intern(name).quarks, name, i);
}

/// A quark keeps its string, and a string its quark, whatever is interned
/// afterwards.
pub proof fn lemma_intern_keeps(state: State, name: Seq<u8>, other: Seq<u8>)
    requires
        position(state.quarks, name) < state.quarks.len(),
    ensures
        state.intern(other).quark_id(name) == state.quark_id(name),
        forall|q: Quark|
            state.quark_name(q) is Some ==> state.intern(other).quark_name(q) == state.quark_name(
                q,
            ),
{
    lemma_position(state.quarks, name);
    let i = position(state.quarks, name) as int;
    lemma_position_is(state.intern(other).quarks, name, i);
}

/// No two strings share a quark.
pub proof fn lemma_quarks_differ(state: State, a: Seq<u8>, b: Seq<u8>)
    requires
        state.quark_id(a) == state.quark_id(b),
        position(state.quarks, a) < state.quarks.len(),
    ensures
        a == b,
{
    lemma_position(state.quarks, a);
    lemma_position(state.quarks, b);
}

/// The foreign functions that the library calls. An implementation binds
/// each to the foreign runtime; the contracts say what the runtime is
/// relied on to do, over the model `State`.
pub trait Runtime {
    /// The runtime's state in the model. An implementation that binds the
    /// foreign functions themselves cannot state it, and leaves it open.
    open spec fn state(&self) -> State {
        arbitrary()
    }

    /// Takes one more reference on the object at `ptr`, with the increment
    /// function of the pair `funcs`.
    fn inc_ref(&mut self, funcs: RefcountFuncs, ptr: RawPtr)
        requires
            old(self).state().live(ptr),
            old(self).state().counts[ptr] < guint::MAX,
        ensures
            final(self).state() == old(self).state().inc(ptr),
    ;

    /// Gives up one reference on the object at `ptr`, with the decrement
    /// function of the pair `funcs`. The runtime destroys the object when
    /// this was the last.
    fn dec_ref(&mut self, funcs: RefcountFuncs, ptr: RawPtr)
        requires
            old(self).state().live(ptr),
        ensures
            final(self).state() == old(self).state().dec(ptr),
    ;

    /// Reads the type tag embedded in the object at `ptr` and asks the
    /// type hierarchy whether it conforms to `type_id`.
    fn check_instance_is_a(&self, ptr: RawPtr, type_id: GType) -> (is_a: bool)
        requires
            self.state().live(ptr),
        ensures
            is_a == self.state().instance_is_a(ptr, type_id),
    ;

    /// Looks up the name of a type.
    fn g_type_name(&self, type_id: GType) -> (name: Option<Vec<u8>>)
        ensures
            name.is_some() == self.state().g_type_name(type_id).is_some(),
            name matches Some(n) ==> Some(n@) == self.state().g_type_name(type_id),
    ;

    /// Interns the NUL-terminated `string` and gives its quark.
    fn quark_from_static_string(&mut self, string: &'static [u8]) -> (quark: Quark)
        requires
            is_c_str(string@),
            old(self).state().quarks.len() < guint::MAX,
        ensures
            final(self).state() == old(self).state().intern(c_str(string@)),
            quark.to_raw() == old(self).state().quark_id(c_str(string@)),
    ;

    /// Looks up the string that a quark stands for.
    fn quark_to_string(&self, quark: Quark) -> (name: Option<Vec<u8>>)
        ensures
            name.is_some() == self.state().quark_name(quark).is_some(),
            name matches Some(n) ==> Some(n@) == self.state().quark_name(quark),
    ;
}

} // verus!
