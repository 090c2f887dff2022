//! An in-process runtime: a table of counted objects, a table of types and
//! a table of interned strings, which behave as the contracts of `Runtime`
//! say. It serves where the foreign runtime itself is not at hand, and
//! shows that those contracts can be met.

use vstd::prelude::*;
use vstd::slice::{slice_subrange, slice_to_vec};
use crate::gstr::{c_str, c_str_len, lemma_c_str};
use crate::gtype::{GType, INVALID, NONE};
use crate::quark::Quark;
use crate::refcount::RefcountFuncs;
use crate::runtime::{lemma_position_is, Runtime, State};
use crate::types::{gsize, guint};
use crate::util::bytes_eq;
use crate::wrap::RawPtr;

verus! {

/// The index, among the tags, of the first type that a heap registers: one
/// past the fundamental types.
pub const FIRST_TYPE: gsize = 256;

/// The most types that one heap registers.
pub const MAX_TYPES: usize = 0x0100_0000;

/// The tag of the type that a heap registers as its `index`-th.
pub open spec fn tag(index: int) -> GType {
    GType(((FIRST_TYPE + index) * 4) as gsize)
}

/// Whether a heap that has registered `n` types has registered `t`.
pub open spec fn is_tag_below(t: GType, n: int) -> bool {
    t.0 % 4 == 0 && FIRST_TYPE <= t.0 / 4 < FIRST_TYPE + n
}

/// The index that a registered tag was registered at.
pub open spec fn index_of(t: GType) -> int {
    t.0 / 4 - FIRST_TYPE
}

#[derive(Clone, Copy)]
struct Slot {
    refs: guint,
    type_id: GType,
}

struct TypeNode {
    name: Vec<u8>,
    ancestors: Vec<GType>,
}

/// The object at address `n` is in slot `n - 1`; a slot whose count has
/// come down to zero stays empty, so that no address is used twice.
pub struct Heap {
    slots: Vec<Slot>,
    nodes: Vec<TypeNode>,
    quarks: Vec<Vec<u8>>,
    destroyed: Vec<RawPtr>,
}

spec fn live_at(slots: Seq<Slot>, p: RawPtr) -> bool {
    1 <= p.addr <= slots.len() && slots[p.addr - 1].refs > 0
}

spec fn conforms_in(nodes: Seq<TypeNode>, t: GType, u: GType) -> bool {
    is_tag_below(t, nodes.len() as int) && nodes[index_of(t)].ancestors@.contains(u)
}

fn contains_tag(tags: &Vec<GType>, t: GType) -> (found: bool)
    ensures
        found == tags@.contains(t),
{
    let mut i: usize = 0;
    while i < tags.len()
        invariant
            i <= tags@.len(),
            forall|j: int| 0 <= j < i ==> tags@[j] != t,
        decreases tags@.len() - i,
    {
        if tags[i] == t {
            return true;
        }
        i = i + 1;
    }
    false
}

impl Heap {
    /// A heap with no object, no type and no interned string.
    pub fn new() -> (heap: Heap)
        ensures
            heap.state().counts == Map::<RawPtr, nat>::empty(),
            heap.state().types == Map::<RawPtr, GType>::empty(),
            heap.state().conforms == Set::<(GType, GType)>::empty(),
            heap.state().names == Map::<GType, Seq<u8>>::empty(),
            heap.state().quarks == Seq::<Seq<u8>>::empty(),
            heap.state().destroyed == Seq::<RawPtr>::empty(),
            heap.state().sound(),
            heap.type_count() == 0,
    {
        let heap = Heap {
            slots: Vec::new(),
            nodes: Vec::new(),
            quarks: Vec::new(),
            destroyed: Vec::new(),
        };
        assert(heap.state().counts =~= Map::<RawPtr, nat>::empty());
        assert(heap.state().types =~= Map::<RawPtr, GType>::empty());
        assert(heap.state().conforms =~= Set::<(GType, GType)>::empty());
        assert(heap.state().names =~= Map::<GType, Seq<u8>>::empty());
        assert(heap.state().quarks =~= Seq::<Seq<u8>>::empty());
        heap
    }

    /// How many types the heap has registered.
    pub closed spec fn type_count(&self) -> nat {
        self.nodes@.len()
    }

    /// Registers a type under `name`, as a subtype of `parent`: it conforms
    /// to itself, to `parent` and to all that `parent` conforms to. Nothing
    /// is registered under a parent that stands for no type at all, nor
    /// once the heap holds `MAX_TYPES` types.
    pub fn register_type(&mut self, name: &[u8], parent: GType) -> (type_id: Option<GType>)
        ensures
            type_id.is_some() == (old(self).type_count() < MAX_TYPES && parent != GType(INVALID)
                && parent != GType(NONE)),
            old(self).state().sound() ==> final(self).state().sound(),
            type_id.is_none() ==> final(self).state() == old(self).state() && final(self).type_count() == old(self).type_count(),
            type_id matches Some(t) ==> {
                &&& t == tag(old(self).type_count() as int)
                &&& final(self).type_count() == old(self).type_count() + 1
                &&& !old(self).state().names.contains_key(t)
                &&& final(self).state() == State {
                    names: old(self).state().names.insert(t, name@),
                    conforms: old(self).state().conforms.union(
                        Set::new(
                            |pair: (GType, GType)|
                                pair.0 == t && (pair.1 == t || pair.1 == parent || old(self).state().conforms.contains((parent, pair.1))),
                        ),
                    ),
                    ..old(self).state()
                }
            },
    {
        let n = self.nodes.len();
        if n >= MAX_TYPES || parent.to_raw() == INVALID || parent.to_raw() == NONE {
            return None;
        }
        let t = GType::new((FIRST_TYPE + n) * 4);
        let mut ancestors: Vec<GType> = Vec::new();
        ancestors.push(t);
        ancestors.push(parent);
        let ghost inherited: Seq<GType> = Seq::empty();
        let p = parent.to_raw();
        if p % 4 == 0 && p / 4 >= FIRST_TYPE && p / 4 - FIRST_TYPE < n {
            let k = p / 4 - FIRST_TYPE;
            let from = &self.nodes[k].ancestors;
            proof {
                inherited = from@;
            }
            let mut i: usize = 0;
            while i < from.len()
                invariant
                    i <= from@.len(),
                    ancestors@ == seq![t, parent] + from@.take(i as int),
                decreases from@.len() - i,
            {
                ancestors.push(from[i]);
                assert(from@.take(i + 1) =~= from@.take(i as int).push(from@[i as int]));
                assert(seq![t, parent] + from@.take(i + 1) =~= (seq![t, parent] + from@.take(
                    i as int,
                )).push(from@[i as int]));
                i = i + 1;
            }
            assert(from@.take(i as int) =~= from@);
        } else {
            assert(seq![t, parent] + Seq::<GType>::empty() =~= seq![t, parent]);
        }
        assert(ancestors@ == seq![t, parent] + inherited);
        assert(forall|u: GType| conforms_in(old(self).nodes@, parent, u) <==> inherited.contains(u));
        assert forall|u: GType| #[trigger]
            ancestors@.contains(u) <==> (u == t || u == parent || inherited.contains(u)) by {
            if ancestors@.contains(u) {
                let j = choose|j: int| 0 <= j < ancestors@.len() && ancestors@[j] == u;
                if j >= 2 {
                    assert(inherited[j - 2] == u);
                }
            }
            if u == t {
                assert(ancestors@[0] == u);
            }
            if u == parent {
                assert(ancestors@[1] == u);
            }
            if inherited.contains(u) {
                let j = choose|j: int| 0 <= j < inherited.len() && inherited[j] == u;
                assert(ancestors@[j + 2] == u);
            }
        }
        let node = TypeNode { name: slice_to_vec(name), ancestors };
        self.nodes.push(node);
        proof {
            let pre = old(self).state();
            let post = self.state();
            let fresh = Set::new(
                |pair: (GType, GType)|
                    pair.0 == t && (pair.1 == t || pair.1 == parent || pre.conforms.contains(
                        (parent, pair.1),
                    )),
            );
            assert(post.counts =~= pre.counts);
            assert(post.types =~= pre.types);
            assert(post.quarks =~= pre.quarks);
            assert(post.names =~= pre.names.insert(t, name@)) by {
                assert forall|u: GType| post.names.contains_key(u) implies #[trigger] post.names[u]
                    == pre.names.insert(t, name@)[u] by {
                    if u != t {
                        assert(self.nodes@[index_of(u)] == old(self).nodes@[index_of(u)]);
                    }
                }
            }
            assert forall|pair: (GType, GType)|
                post.conforms.contains(pair) <==> #[trigger] pre.conforms.union(fresh).contains(
                    pair,
                ) by {
                if pair.0 != t && is_tag_below(pair.0, self.nodes@.len() as int) {
                    assert(self.nodes@[index_of(pair.0)] == old(self).nodes@[index_of(pair.0)]);
                }
            }
            assert(post.conforms =~= pre.conforms.union(fresh));
            if pre.sound() {
                assert forall|q: RawPtr| post.live(q) && #[trigger] post.types.contains_key(
                    q,
                ) implies post.names.contains_key(post.types[q]) by {
                    assert(pre.live(q) && pre.types.contains_key(q));
                }
                assert forall|u: GType| #[trigger] post.names.contains_key(u) implies {
                    &&& post.conforms.contains((u, u))
                    &&& !post.conforms.contains((u, GType(INVALID)))
                    &&& !post.conforms.contains((u, GType(NONE)))
                } by {
                    if u == t {
                        assert(fresh.contains((t, t)));
                        if pre.names.contains_key(parent) {
                            assert(!pre.conforms.contains((parent, GType(INVALID))));
                            assert(!pre.conforms.contains((parent, GType(NONE))));
                        }
                    } else {
                        assert(pre.names.contains_key(u));
                    }
                }
            }
        }
        Some(t)
    }

    /// Makes an object of the registered type `type_id`, with one reference
    /// on it, which is the caller's. Nothing is made for a tag that the heap
    /// has not registered.
    pub fn new_object(&mut self, type_id: GType) -> (ptr: Option<RawPtr>)
        ensures
            ptr.is_some() == old(self).state().names.contains_key(type_id),
            ptr.is_none() ==> final(self).state() == old(self).state(),
            old(self).state().sound() ==> final(self).state().sound(),
            ptr matches Some(p) ==> {
                &&& p.addr != 0
                &&& !old(self).state().counts.contains_key(p)
                &&& final(self).state() == State {
                    counts: old(self).state().counts.insert(p, 1),
                    types: old(self).state().types.insert(p, type_id),
                    ..old(self).state()
                }
            },
            final(self).type_count() == old(self).type_count(),
    {
        let raw = type_id.to_raw();
        if !(raw % 4 == 0 && raw / 4 >= FIRST_TYPE && raw / 4 - FIRST_TYPE < self.nodes.len()) {
            return None;
        }
        self.slots.push(Slot { refs: 1, type_id });
        let p = RawPtr { addr: self.slots.len() };
        proof {
            let pre = old(self).state();
            let post = self.state();
            assert(post.counts =~= pre.counts.insert(p, 1));
            assert(post.types =~= pre.types.insert(p, type_id));
            assert(post.names =~= pre.names);
            assert(post.conforms =~= pre.conforms);
            assert(post.quarks =~= pre.quarks);
            if pre.sound() {
                assert forall|q: RawPtr| post.live(q) && #[trigger] post.types.contains_key(
                    q,
                ) implies post.names.contains_key(post.types[q]) by {
                    if q != p {
                        assert(pre.live(q) && pre.types.contains_key(q));
                    }
                }
                assert forall|u: GType| #[trigger] post.names.contains_key(u) implies {
                    &&& post.conforms.contains((u, u))
                    &&& !post.conforms.contains((u, GType(INVALID)))
                    &&& !post.conforms.contains((u, GType(NONE)))
                } by {
                    assert(pre.names.contains_key(u));
                }
            }
        }
        Some(p)
    }

    /// The references held on the object at `ptr`: none where no object
    /// lives.
    pub fn ref_count(&self, ptr: RawPtr) -> (n: guint)
        ensures
            n == self.state().ref_count(ptr),
    {
        if 1 <= ptr.addr && ptr.addr <= self.slots.len() {
            self.slots[ptr.addr - 1].refs
        } else {
            0
        }
    }

    /// Whether a live object is at `ptr`.
    pub fn is_live(&self, ptr: RawPtr) -> (live: bool)
        ensures
            live == self.state().live(ptr),
    {
        self.ref_count(ptr) > 0
    }

    /// How many objects the heap has destroyed.
    pub fn destroyed_count(&self) -> (n: usize)
        ensures
            n == self.state().destroyed.len(),
    {
        self.destroyed.len()
    }
}

impl Runtime for Heap {
    closed spec fn state(&self) -> State {
        State {
            counts: Map::new(
                |p: RawPtr| live_at(self.slots@, p),
                |p: RawPtr| self.slots@[p.addr - 1].refs as nat,
            ),
            types: Map::new(
                |p: RawPtr| live_at(self.slots@, p),
                |p: RawPtr| self.slots@[p.addr - 1].type_id,
            ),
            conforms: Set::new(|pair: (GType, GType)| conforms_in(self.nodes@, pair.0, pair.1)),
            names: Map::new(
                |t: GType| is_tag_below(t, self.nodes@.len() as int),
                |t: GType| self.nodes@[index_of(t)].name@,
            ),
            quarks: Seq::new(self.quarks@.len(), |i: int| self.quarks@[i]@),
            destroyed: self.destroyed@,
        }
    }

    fn inc_ref(&mut self, funcs: RefcountFuncs, ptr: RawPtr) {
        let i = ptr.addr - 1;
        let slot = self.slots[i];
        self.slots.set(i, Slot { refs: slot.refs + 1, type_id: slot.type_id });
        proof {
            let pre = old(self).state();
            let post = self.state();
            assert(post.counts =~= pre.counts.insert(ptr, pre.counts[ptr] + 1));
            assert(post.types =~= pre.types);
            assert(post.names =~= pre.names);
            assert(post.conforms =~= pre.conforms);
            assert(post.quarks =~= pre.quarks);
        }
    }

    fn dec_ref(&mut self, funcs: RefcountFuncs, ptr: RawPtr) {
        let i = ptr.addr - 1;
        let slot = self.slots[i];
        self.slots.set(i, Slot { refs: slot.refs - 1, type_id: slot.type_id });
        if slot.refs == 1 {
            self.destroyed.push(ptr);
        }
        proof {
            let pre = old(self).state();
            let post = self.state();
            assert(post.names =~= pre.names);
            assert(post.conforms =~= pre.conforms);
            assert(post.quarks =~= pre.quarks);
            if slot.refs > 1 {
                assert(post.counts =~= pre.counts.insert(ptr, (pre.counts[ptr] - 1) as nat));
                assert(post.types =~= pre.types);
            } else {
                assert(post.counts =~= pre.counts.remove(ptr));
                assert(post.types =~= pre.types.remove(ptr));
            }
        }
    }

    fn check_instance_is_a(&self, ptr: RawPtr, type_id: GType) -> (is_a: bool) {
        let raw = self.slots[ptr.addr - 1].type_id.to_raw();
        if raw % 4 == 0 && raw / 4 >= FIRST_TYPE && raw / 4 - FIRST_TYPE < self.nodes.len() {
            contains_tag(&self.nodes[raw / 4 - FIRST_TYPE].ancestors, type_id)
        } else {
            false
        }
    }

    fn g_type_name(&self, type_id: GType) -> (name: Option<Vec<u8>>) {
        let raw = type_id.to_raw();
        if raw % 4 == 0 && raw / 4 >= FIRST_TYPE && raw / 4 - FIRST_TYPE < self.nodes.len() {
            Some(slice_to_vec(self.nodes[raw / 4 - FIRST_TYPE].name.as_slice()))
        } else {
            None
        }
    }

    fn quark_from_static_string(&mut self, string: &'static [u8]) -> (quark: Quark) {
        proof {
            lemma_c_str(string@);
        }
        let n = c_str_len(string);
        let name = slice_subrange(string, 0, n);
        assert(name@ == c_str(string@));
        let ghost names = self.state().quarks;
        let mut i: usize = 0;
        while i < self.quarks.len()
            invariant
                i <= self.quarks@.len(),
                self.quarks@.len() < guint::MAX,
                *self == *old(self),
                name@ == c_str(string@),
                names == self.state().quarks,
                forall|j: int| 0 <= j < i ==> names[j] != name@,
            decreases self.quarks@.len() - i,
        {
            if bytes_eq(self.quarks[i].as_slice(), name) {
                proof {
                    lemma_position_is(names, name@, i as int);
                }
                return Quark::from_raw((i + 1) as u32);
            }
            i = i + 1;
        }
        proof {
            lemma_position_is(names, name@, i as int);
        }
        self.quarks.push(slice_to_vec(name));
        proof {
            let pre = old(self).state();
            let post = self.state();
            assert(post.counts =~= pre.counts);
            assert(post.types =~= pre.types);
            assert(post.names =~= pre.names);
            assert(post.conforms =~= pre.conforms);
            assert(post.quarks =~= pre.quarks.push(name@));
        }
        Quark::from_raw((i + 1) as u32)
    }

    fn quark_to_string(&self, quark: Quark) -> (name: Option<Vec<u8>>) {
        let raw = quark.to_raw() as usize;
        if 1 <= raw && raw <= self.quarks.len() {
            Some(slice_to_vec(self.quarks[raw - 1].as_slice()))
        } else {
            None
        }
    }
}

} // verus!
