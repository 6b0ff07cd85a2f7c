use transmutability::MemByte;
use transmutability::NeglectAlignment;
use transmutability::NeglectStability;
use transmutability::NeglectValidity;
use transmutability::PrimTy;
use transmutability::Registry;
use transmutability::Ty;
use transmutability::Value;
use transmutability::align_of;
use transmutability::clone_ty;
use transmutability::inbound_archetype;
use transmutability::is_transmutable_from;
use transmutability::is_transmutable_into;
use transmutability::record_of;
use transmutability::safe_transmute;
use transmutability::size_of;
use transmutability::ty_eq;
use transmutability::unsafe_transmute;

fn u32_ty() -> Ty {
    Ty::Prim(PrimTy::U32)
}

fn u32_value(b0: u8, b1: u8, b2: u8, b3: u8) -> Value {
    Value {
        ty: u32_ty(),
        bytes: vec![MemByte::Init(b0), MemByte::Init(b1), MemByte::Init(b2), MemByte::Init(b3)],
    }
}

#[test]
fn reflexivity_holds_with_stability_neglected() {
    let reg = Registry::new();
    assert!(is_transmutable_from(&reg, &u32_ty(), &u32_ty(), &NeglectStability));
    assert!(is_transmutable_into(&reg, &u32_ty(), &u32_ty(), &NeglectStability));
    let never = Ty::Prim(PrimTy::Never);
    assert!(is_transmutable_from(&reg, &never, &never, &NeglectStability));
    let ref_u32 = Ty::Ref(Box::new(u32_ty()));
    assert!(is_transmutable_from(&reg, &ref_u32, &ref_u32, &NeglectStability));
}

#[test]
fn reflexive_transmute_is_bit_identical() {
    let reg = Registry::new();
    let v = u32_value(7, 8, 9, 10);
    let r = safe_transmute(&reg, v, &u32_ty(), &NeglectStability);
    assert_eq!(
        r.bytes,
        vec![MemByte::Init(7), MemByte::Init(8), MemByte::Init(9), MemByte::Init(10)]
    );
}

#[test]
fn identical_primitive_converts_under_full_guarantees() {
    let reg = Registry::new();
    assert!(is_transmutable_from(&reg, &u32_ty(), &u32_ty(), &()));
    let v = u32_value(1, 2, 3, 4);
    let r = safe_transmute(&reg, v, &u32_ty(), &());
    assert_eq!(r.bytes.len(), 4);
}

#[test]
fn signed_unsigned_same_size_converts_stably() {
    let reg = Registry::new();
    let i32_ty = Ty::Prim(PrimTy::I32);
    assert!(is_transmutable_from(&reg, &i32_ty, &u32_ty(), &()));
    assert!(is_transmutable_from(&reg, &u32_ty(), &i32_ty, &()));
}

#[test]
fn size_mismatch_is_rejected_under_every_waiver_set() {
    let reg = Registry::new();
    let u64_ty = Ty::Prim(PrimTy::U64);
    assert!(!is_transmutable_from(&reg, &u64_ty, &u32_ty(), &NeglectStability));
    assert!(!is_transmutable_from(
        &reg,
        &u64_ty,
        &u32_ty(),
        &(NeglectStability, NeglectAlignment, NeglectValidity)
    ));
}

#[test]
fn waiver_monotonicity_on_concrete_pair() {
    let reg = Registry::new();
    let i32_ty = Ty::Prim(PrimTy::I32);
    // Holds with no waivers, so it must also hold with stability waived,
    // and with everything waived.
    assert!(is_transmutable_from(&reg, &i32_ty, &u32_ty(), &()));
    assert!(is_transmutable_from(&reg, &i32_ty, &u32_ty(), &NeglectStability));
    assert!(is_transmutable_from(
        &reg,
        &i32_ty,
        &u32_ty(),
        &(NeglectStability, NeglectAlignment, NeglectValidity)
    ));
}

#[test]
fn reference_conversion_respects_alignment() {
    let reg = Registry::new();
    let ref_u16 = Ty::Ref(Box::new(Ty::Prim(PrimTy::U16)));
    let ref_u32 = Ty::Ref(Box::new(u32_ty()));
    // &u32 into &u16: weaker alignment, shorter read: accepted.
    assert!(is_transmutable_from(&reg, &ref_u16, &ref_u32, &NeglectStability));
    // &u16 into &u32: stricter alignment and longer read: rejected, and
    // still rejected when only alignment is additionally waived.
    assert!(!is_transmutable_from(&reg, &ref_u32, &ref_u16, &NeglectStability));
    assert!(!is_transmutable_from(
        &reg,
        &ref_u32,
        &ref_u16,
        &(NeglectStability, NeglectAlignment)
    ));
}

#[test]
fn reference_to_shorter_referent_is_a_prefix_read() {
    let reg = Registry::new();
    let ref_u64 = Ty::Ref(Box::new(Ty::Prim(PrimTy::U64)));
    let ref_u32 = Ty::Ref(Box::new(u32_ty()));
    assert!(is_transmutable_from(&reg, &ref_u32, &ref_u64, &NeglectStability));
}

#[test]
fn forging_a_reference_needs_a_validity_waiver() {
    let reg = Registry::new();
    let u64_ty = Ty::Prim(PrimTy::U64);
    let ref_u64 = Ty::Ref(Box::new(Ty::Prim(PrimTy::U64)));
    assert!(!is_transmutable_from(&reg, &ref_u64, &u64_ty, &NeglectStability));
    assert!(is_transmutable_from(
        &reg,
        &ref_u64,
        &u64_ty,
        &(NeglectStability, NeglectValidity)
    ));
}

#[test]
fn reading_pointer_bytes_as_plain_data_is_rejected() {
    let reg = Registry::new();
    let u64_ty = Ty::Prim(PrimTy::U64);
    let ref_u64 = Ty::Ref(Box::new(Ty::Prim(PrimTy::U64)));
    assert!(!is_transmutable_from(&reg, &u64_ty, &ref_u64, &NeglectStability));
}

#[test]
fn arrays_lift_the_relation_elementwise() {
    let reg = Registry::new();
    let arr_u32 = Ty::Array(Box::new(u32_ty()), 2);
    let arr_i32 = Ty::Array(Box::new(Ty::Prim(PrimTy::I32)), 2);
    assert!(is_transmutable_from(&reg, &arr_i32, &arr_u32, &NeglectStability));
    // The same relation also holds under full guarantees: both arrays
    // derive their archetype structurally from committed primitives.
    assert!(is_transmutable_from(&reg, &arr_i32, &arr_u32, &()));
}

#[test]
fn byte_array_and_integer_interconvert() {
    let reg = Registry::new();
    let arr_u8 = Ty::Array(Box::new(Ty::Prim(PrimTy::U8)), 4);
    assert!(is_transmutable_from(&reg, &u32_ty(), &arr_u8, &NeglectStability));
    assert!(is_transmutable_from(&reg, &arr_u8, &u32_ty(), &NeglectStability));
}

#[test]
fn unsafe_transmute_preserves_bits_and_size() {
    let reg = Registry::new();
    let v = u32_value(0xde, 0xad, 0xbe, 0xef);
    let arr_u8 = Ty::Array(Box::new(Ty::Prim(PrimTy::U8)), 4);
    let r = unsafe_transmute(&reg, v, &arr_u8, &(NeglectStability, NeglectValidity));
    assert_eq!(r.bytes.len(), 4);
    assert_eq!(r.bytes[0], MemByte::Init(0xde));
    assert_eq!(r.bytes[3], MemByte::Init(0xef));
}

#[test]
fn value_methods_mirror_the_free_functions() {
    let reg = Registry::new();
    let v = u32_value(1, 0, 0, 0);
    let r = v.transmute_into(&reg, &Ty::Prim(PrimTy::I32), &());
    assert_eq!(r.bytes[0], MemByte::Init(1));
    let r2 = Value::transmute_from(&reg, r, &u32_ty(), &());
    assert_eq!(r2.bytes[0], MemByte::Init(1));
    let r3 = r2.unsafe_transmute_into(
        &reg,
        &Ty::Array(Box::new(Ty::Prim(PrimTy::U8)), 4),
        &NeglectStability,
    );
    assert_eq!(r3.bytes.len(), 4);
    let r4 = Value::unsafe_transmute_from(&reg, r3, &u32_ty(), &NeglectStability);
    assert_eq!(r4.bytes[0], MemByte::Init(1));
}

#[test]
fn type_descriptions_compare_and_copy_structurally() {
    let arr = Ty::Array(Box::new(Ty::Ref(Box::new(u32_ty()))), 3);
    let copy = clone_ty(&arr);
    assert!(ty_eq(&arr, &copy));
    let other = Ty::Array(Box::new(Ty::Ref(Box::new(u32_ty()))), 4);
    assert!(!ty_eq(&arr, &other));
}

#[test]
fn empty_record_is_zero_sized() {
    let empty = record_of(vec![]);
    assert_eq!(size_of(&empty), 0);
    assert_eq!(align_of(&empty), 1);
    let reg = Registry::new();
    assert!(is_transmutable_from(&reg, &Ty::Prim(PrimTy::Unit), &empty, &NeglectStability));
}

#[test]
fn inbound_archetypes_derive_over_references() {
    let reg = Registry::new();
    let ref_u32 = Ty::Ref(Box::new(u32_ty()));
    let arch = inbound_archetype(&reg, &ref_u32).unwrap();
    assert!(ty_eq(&arch, &ref_u32));
}
