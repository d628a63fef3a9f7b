//! What the library relies on from `egui_mobius_reactive::Dynamic<T>`.
//!
//! A `Dynamic<T>` is a shared, thread-safe cell (`Arc<Mutex<T>>` plus change
//! listeners). Every clone of a handle reads and writes the same cell, so the
//! value behind a handle is not a function of the handle: any holder, on any
//! thread, may change it at any time. Nothing here therefore claims what a
//! read returns or what a cell holds after a write. Reading and writing a
//! cell lock its mutex, which panics when the mutex is poisoned and blocks
//! when the calling thread already holds it; no precondition can exclude
//! either, so the verified code here never reads or writes a cell: it only
//! creates cells and copies handles.

use egui_mobius_reactive::Dynamic;
use vstd::prelude::*;

verus! {

/// The reactive cell type `egui_mobius_reactive::Dynamic<T>`, opaque to Verus.
#[verifier::external_type_specification]
#[verifier::external_body]
#[verifier::reject_recursive_types(T)]
pub struct ExDynamic<T>(Dynamic<T>);

/// `Dynamic::new` allocates a fresh cell holding `initial`. Nothing is claimed
/// of the handle: its contents are observable only by reading the cell, which
/// this crate leaves to its callers.
pub assume_specification<T: Clone + Send + 'static>[ Dynamic::<T>::new ](initial: T) -> Dynamic<T>;

/// The derived `Clone` of `Dynamic` clones both of its `Arc`s: the result is a
/// second handle to the very same cell and listener list, which is what the
/// equality below expresses.
pub assume_specification<T: Clone>[ <Dynamic<T> as Clone>::clone ](d: &Dynamic<T>) -> (res: Dynamic<T>)
    ensures
        res == *d,
;

} // verus!
