//! Safe, statically checked handles over a foreign object runtime that counts
//! references inside its objects and tells types apart by tags at run time.
//!
//! The foreign side is reached through the trait `runtime::Runtime` alone:
//! every function that takes or gives up a reference, asks for the type of
//! an object or looks up an interned string takes the runtime as an
//! argument, and says in its contract what it does to the runtime's state.
//! That state is modelled by `runtime::State`. `heap::Heap` is a runtime
//! that lives in this process.
//!
//! - `wrap`, `refcount`, `object`, `gtype`: pointers into foreign memory,
//!   owning handles on counted objects, runtime type identity and casts.
//! - `gobject`, `mainloop`, `interface`, `plumbing`: the types of the
//!   runtime that the handles are most used with.
//! - `quark`, `error`, `enumeration`, `flags`, `boxed`, `value`, `callback`:
//!   interned strings, errors and their domains, and what else the foreign
//!   interface passes.
//! - `gstr`, `utf8`, `util`: strings that end in a NUL, UTF-8 in them, and
//!   how bytes are shown.

pub mod boxed;
pub mod callback;
pub mod enumeration;
pub mod error;
pub mod flags;
pub mod gobject;
pub mod gstr;
pub mod gtype;
pub mod heap;
pub mod interface;
pub mod mainloop;
pub mod object;
pub mod plumbing;
pub mod quark;
pub mod refcount;
pub mod runtime;
pub mod types;
pub mod utf8;
pub mod util;
pub mod value;
pub mod wrap;
