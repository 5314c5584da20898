//! Maps that hand out stable, validity-checked handles to values stored in
//! reusable slots.
//!
//! A [`Handle`] packs a 32-bit generation above a 32-bit slot index. A
//! [`SparseHandleMap`] owns an array of slots and recycles freed slots in FIFO
//! order, bumping the slot's generation on each reuse so that stale handles
//! are detected. A [`DenseHandleMap`] keeps its values in a contiguous array
//! for cache-friendly iteration and uses a sparse map internally to translate
//! handles into positions, relinking one entry after each swap-removal.

pub mod dense;
pub mod handle;
pub mod sparse;

pub use dense::DenseHandleMap;
pub use handle::Handle;
pub use sparse::SparseHandleMap;
