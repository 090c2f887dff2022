//! Quarks: small integers that stand for interned strings.

use core::sync::atomic::{AtomicUsize, Ordering};
use vstd::prelude::*;
use vstd::string::StringSliceAdditionalSpecFns;
use vstd::utf8::{decode_utf8, valid_utf8};
use crate::gstr::{c_str, ends_in_nul};
use crate::runtime::{Runtime, State};
use crate::types::guint;
use crate::util::{escape_bytestring, escape_bytestring_spec, string_from_utf8_lossy, utf8_lossy};

verus! {

/// A quark of the foreign runtime. Zero stands for no string.
#[derive(Clone, Copy, PartialEq, Eq, Structural, Debug)]
pub struct Quark(pub u32);

/// A string to intern, with a place to remember its quark in. The place
/// may be shared between threads: each of them that finds it empty interns
/// the string, all get the same quark, and whichever stores it stores that.
pub struct StaticQuark(pub &'static [u8], pub AtomicUsize);

impl Quark {
    pub open spec fn spec_raw(&self) -> u32 {
        self.0
    }

    /// Takes a raw quark on trust: nothing checks that a string was
    /// interned under it.
    pub fn from_raw(raw: u32) -> (q: Quark)
        ensures
            q == Quark(raw),
    {
        Quark(raw)
    }

    /// The quark of a string that ends in a NUL. The string is interned if
    /// it was not yet.
    pub fn from_static_str<R: Runtime>(rt: &mut R, s: &'static str) -> (q: Quark)
        requires
            ends_in_nul(s.spec_bytes()),
            old(rt).state().quarks.len() < guint::MAX,
        ensures
            final(rt).state() == old(rt).state().intern(c_str(s.spec_bytes())),
            q.to_raw() == old(rt).state().quark_id(c_str(s.spec_bytes())),
    {
        Quark::from_static_bytes(rt, s.as_bytes())
    }

    /// The quark of a byte string that ends in a NUL. The string is
    /// interned if it was not yet.
    pub fn from_static_bytes<R: Runtime>(rt: &mut R, bytes: &'static [u8]) -> (q: Quark)
        requires
            ends_in_nul(bytes@),
            old(rt).state().quarks.len() < guint::MAX,
        ensures
            final(rt).state() == old(rt).state().intern(c_str(bytes@)),
            q.to_raw() == old(rt).state().quark_id(c_str(bytes@)),
    {
        assert(bytes@[bytes@.len() - 1] == 0u8);
        rt.quark_from_static_string(bytes)
    }

    /// The string that the quark stands for, which the runtime must know.
    pub fn to_bytes<R: Runtime>(&self, rt: &R) -> (bytes: Vec<u8>)
        requires
            rt.state().quark_name(*self).is_some(),
        ensures
            Some(bytes@) == rt.state().quark_name(*self),
    {
        match rt.quark_to_string(*self) {
            Some(bytes) => bytes,
            None => Vec::new(),
        }
    }

    /// The string as text, with a replacement character wherever it is no
    /// UTF-8.
    pub fn to_string<R: Runtime>(&self, rt: &R) -> (text: String)
        requires
            rt.state().quark_name(*self).is_some(),
        ensures
            text@ == utf8_lossy(rt.state().quark_name(*self)->0),
            valid_utf8(rt.state().quark_name(*self)->0) ==> text@ == decode_utf8(
                rt.state().quark_name(*self)->0,
            ),
    {
        string_from_utf8_lossy(self.to_bytes(rt).as_slice())
    }

    /// The string between quotes, as an escaped byte string, for a
    /// developer to read.
    pub fn debug<R: Runtime>(&self, rt: &R) -> (text: String)
        requires
            rt.state().quark_name(*self).is_some(),
        ensures
            text@ == "\""@ + escape_bytestring_spec(rt.state().quark_name(*self)->0) + "\""@,
    {
        let escaped = escape_bytestring(self.to_bytes(rt).as_slice());
        let mut text = "\"".to_owned();
        text.append(escaped.as_str());
        text.append("\"");
        text
    }

    #[verifier::when_used_as_spec(spec_raw)]
    pub fn to_raw(&self) -> (raw: u32)
        ensures
            raw == self.spec_raw(),
    {
        self.0
    }
}

/// What a remembered quark stands for: the low bits of the word that was
/// read from the place.
pub open spec fn remembered(cached: usize) -> u32 {
    (cached & 0xffff_ffff) as u32
}

fn remembered_quark(cached: usize) -> (raw: u32)
    ensures
        raw == remembered(cached),
{
    (cached & 0xffff_ffff) as u32
}

fn quark_word(quark: Quark) -> (word: usize)
    ensures
        word == quark.to_raw(),
{
    quark.to_raw() as usize
}

/// The quark that a thread comes to use for `name`, given the word that it
/// read from the place that remembers it.
pub open spec fn resolved(state: State, name: Seq<u8>, cached: usize) -> u32 {
    if remembered(cached) != 0 {
        remembered(cached)
    } else {
        state.quark_id(name) as u32
    }
}

/// Every thread comes to use the same quark for a name, whether it found
/// the place empty or found there what another thread had stored: the one
/// quark under which the runtime interns the name.
pub proof fn lemma_one_stable_quark(state: State, name: Seq<u8>, cached: usize)
    requires
        state.quark_id(name) <= guint::MAX,
        cached == 0 || cached == state.quark_id(name),
    ensures
        resolved(state, name, cached) == state.quark_id(name),
        resolved(state.intern(name), name, cached) == state.quark_id(name),
{
    crate::runtime::lemma_position(state.quarks, name);
    crate::runtime::lemma_intern(state, name);
    assert(cached & 0xffff_ffff == cached) by (bit_vector)
        requires
            cached <= 0xffff_ffff,
    ;
}

/// The state after a number of threads, one after another, have looked the
/// quark of `name` up, each with the word that it read from the place.
pub open spec fn state_after_lookups(state: State, name: Seq<u8>, reads: Seq<usize>) -> State
    decreases reads.len(),
{
    if reads.len() == 0 {
        state
    } else {
        let before = state_after_lookups(state, name, reads.drop_last());
        if remembered(reads.last()) != 0 {
            before
        } else {
            before.intern(name)
        }
    }
}

/// The quark that the last of the threads comes to use.
pub open spec fn last_lookup(state: State, name: Seq<u8>, reads: Seq<usize>) -> u32
    recommends
        reads.len() > 0,
{
    resolved(state_after_lookups(state, name, reads.drop_last()), name, reads.last())
}

/// Threads that race for the place agree: however their reads and stores
/// fall, each read finds the place empty or finds the quark of the name in
/// it, so each thread comes to use that quark, and the runtime interns the
/// name once.
pub proof fn lemma_racing_lookups_agree(state: State, name: Seq<u8>, reads: Seq<usize>)
    requires
        state.quark_id(name) <= guint::MAX,
        forall|i: int|
            0 <= i < reads.len() ==> reads[i] == 0 || reads[i] == state.quark_id(name),
    ensures
        reads.len() > 0 ==> last_lookup(state, name, reads) == state.quark_id(name),
        state_after_lookups(state, name, reads) == state || state_after_lookups(
            state,
            name,
            reads,
        ) == state.intern(name),
        state_after_lookups(state, name, reads).quark_id(name) == state.quark_id(name),
    decreases reads.len(),
{
    crate::runtime::lemma_intern(state, name);
    if reads.len() > 0 {
        let earlier = reads.drop_last();
        lemma_racing_lookups_agree(state, name, earlier);
        let before = state_after_lookups(state, name, earlier);
        crate::runtime::lemma_position(state.quarks, name);
        if before == state {
            lemma_one_stable_quark(state, name, reads.last());
        } else {
            lemma_one_stable_quark(before, name, reads.last());
        }
    }
}

/// The quark to use for `name`, given the word read from the place that
/// remembers it: the remembered quark where there is one, and else the
/// quark under which the runtime interns `name` now.
pub fn cached_or_interned<R: Runtime>(rt: &mut R, name: &'static [u8], cached: usize) -> (q: Quark)
    requires
        ends_in_nul(name@),
        old(rt).state().quarks.len() < guint::MAX,
    ensures
        q.to_raw() == resolved(old(rt).state(), c_str(name@), cached),
        remembered(cached) != 0 ==> q == Quark(remembered(cached)) && final(rt).state() == old(rt).state(),
        remembered(cached) == 0 ==> q.to_raw() == old(rt).state().quark_id(c_str(name@)) && final(rt).state() == old(rt).state().intern(c_str(name@)),
        q.to_raw() != 0,
{
    let raw = remembered_quark(cached);
    if raw != 0 {
        Quark(raw)
    } else {
        Quark::from_static_bytes(rt, name)
    }
}

impl StaticQuark {
    /// The quark of the string: the remembered one if a quark was stored
    /// before, and else the one under which the string is interned now,
    /// which is then stored. What another thread stored in between is not
    /// known here, so the result is stated for the word that was read.
    pub fn get<R: Runtime>(&self, rt: &mut R) -> (q: Quark)
        requires
            ends_in_nul(self.0@),
            old(rt).state().quarks.len() < guint::MAX,
        ensures
            q.to_raw() != 0,
            final(rt).state() == old(rt).state() || (q.to_raw() == old(rt).state().quark_id(
                c_str(self.0@),
            ) && final(rt).state() == old(rt).state().intern(c_str(self.0@))),
    {
        let cached = self.1.load(Ordering::Relaxed);
        let quark = cached_or_interned(rt, self.0, cached);
        if remembered_quark(cached) == 0 {
            self.1.store(quark_word(quark), Ordering::Relaxed);
        }
        quark
    }
}

} // verus!
