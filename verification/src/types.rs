//! Names for the machine-dependent basic types of the foreign interface.

#![allow(non_camel_case_types)]

use vstd::prelude::*;

verus! {

pub type gboolean = gtypes::gboolean;

pub type gchar = gtypes::gchar;

pub type guchar = gtypes::guchar;

pub type gint = gtypes::gint;

pub type guint = gtypes::guint;

pub type glong = gtypes::glong;

pub type gulong = gtypes::gulong;

pub type gsize = gtypes::gsize;

pub type gssize = gtypes::gssize;

pub const FALSE: gboolean = 0;

pub const TRUE: gboolean = 1;

} // verus!
