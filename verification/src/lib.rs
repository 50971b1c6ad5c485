//! A broadcasting applier: apply a function of arity 1 to 3 uniformly,
//! whether each of its arguments is a single scalar or a (possibly
//! nested) collection of scalars. Collection arguments are mapped
//! element-wise, and several collection arguments combine as a full
//! cross product, the first argument forming the outermost nesting
//! level. Element-wise applications may run sequentially or on
//! parallel workers; the order of the results always follows the
//! order of the inputs, and a failure of the supplied function for
//! any one element aborts the whole broadcast.
//!
//! Two collection arguments are never zipped position by position:
//! each contributes its own nesting level of the cross product, so no
//! two collections ever need to agree in length, and a length
//! mismatch cannot arise. Collections may also be ragged or nested to
//! different depths; every scalar is reached wherever it stands.

pub mod apply;
pub mod laws;
pub mod model;
pub mod value;
