//! A static layout-compatibility decision procedure.
//!
//! The crate decides, from type descriptions alone, whether reinterpreting
//! the bit pattern of a value of one type as another type is sound, safe,
//! and stable, under an explicit, auditable set of waived guarantees.
//! Conversions are justified by contracts: a transmutation that cannot be
//! proven admissible is rejected when this crate's callers are verified,
//! never re-checked at run time.

pub mod cast;
pub mod mem;
pub mod options;
pub mod relation;
pub mod stability;
pub mod transmute;
pub mod ty;

pub use cast::SafeCastOptions;
pub use cast::SafeSliceCastOptions;
pub use cast::SafeVecCastOptions;
pub use cast::SliceVal;
pub use cast::UnsafeCastOptions;
pub use cast::UnsafeSliceCastOptions;
pub use cast::UnsafeVecCastOptions;
pub use cast::VecVal;
pub use cast::cast_slice;
pub use cast::cast_vec;
pub use cast::is_slice_castable;
pub use cast::is_vec_castable;
pub use cast::unsafe_cast_slice;
pub use cast::unsafe_cast_vec;
pub use mem::is_align_eq;
pub use mem::is_align_lt_eq;
pub use mem::is_size_eq;
pub use mem::is_size_lt_eq;
pub use options::NeglectAlignment;
pub use options::NeglectStability;
pub use options::NeglectValidity;
pub use options::SafeTransmuteOptions;
pub use options::Sealed;
pub use options::UnsafeTransmuteOptions;
pub use options::Waivers;
pub use stability::PromiseTransmutableFrom;
pub use stability::PromiseTransmutableInto;
pub use stability::Registry;
pub use stability::inbound_archetype;
pub use stability::outbound_archetype;
pub use transmute::MemByte;
pub use transmute::Value;
pub use transmute::is_transmutable_from;
pub use transmute::is_transmutable_into;
pub use transmute::safe_transmute;
pub use transmute::unsafe_transmute;
pub use ty::ByteKind;
pub use ty::Fields;
pub use ty::PrimTy;
pub use ty::Ty;
pub use ty::align_of;
pub use ty::clone_ty;
pub use ty::compute_vbytes;
pub use ty::record_of;
pub use ty::size_of;
pub use ty::ty_eq;
