use transmutability::ByteKind;
use transmutability::MemByte;
use transmutability::NeglectStability;
use transmutability::NeglectValidity;
use transmutability::PrimTy;
use transmutability::Registry;
use transmutability::Ty;
use transmutability::Value;
use transmutability::align_of;
use transmutability::compute_vbytes;
use transmutability::is_transmutable_from;
use transmutability::is_transmutable_into;
use transmutability::outbound_archetype;
use transmutability::record_of;
use transmutability::safe_transmute;
use transmutability::size_of;
use transmutability::ty_eq;
use transmutability::unsafe_transmute;

fn u32_ty() -> Ty {
    Ty::Prim(PrimTy::U32)
}

/// A record with two 2-byte fields: 4 bytes, no padding.
fn flat_record() -> Ty {
    record_of(vec![Ty::Prim(PrimTy::U16), Ty::Prim(PrimTy::U16)])
}

/// A record with 1-byte and 2-byte fields: one padding byte in between.
fn padded_record() -> Ty {
    record_of(vec![Ty::Prim(PrimTy::U8), Ty::Prim(PrimTy::U16)])
}

#[test]
fn record_layout_matches_c_packing() {
    let r = padded_record();
    assert_eq!(size_of(&r), 4);
    assert_eq!(align_of(&r), 2);
    assert_eq!(
        compute_vbytes(&r),
        vec![ByteKind::Init, ByteKind::Uninit, ByteKind::Init, ByteKind::Init]
    );
}

#[test]
fn outbound_declaration_commits_only_the_outbound_direction() {
    let mut reg = Registry::new();
    let rec = flat_record();
    assert!(reg.declare_outbound(&rec, &rec));
    // The record may now act as a stable source...
    assert!(is_transmutable_from(&reg, &u32_ty(), &rec, &()));
    // ...but not as a stable destination: outbound and inbound stability
    // are independent declarations.
    assert!(!is_transmutable_from(&reg, &rec, &u32_ty(), &()));
    assert!(reg.declare_inbound(&rec, &rec));
    assert!(is_transmutable_from(&reg, &rec, &u32_ty(), &()));
}

#[test]
fn primitives_are_predeclared_and_not_redeclarable() {
    let mut reg = Registry::new();
    let t = u32_ty();
    assert!(!reg.declare_outbound(&t, &t));
    assert!(!reg.declare_inbound(&t, &t));
    let arch = outbound_archetype(&reg, &t).unwrap();
    assert!(ty_eq(&arch, &t));
}

#[test]
fn mismatched_archetype_is_rejected() {
    let mut reg = Registry::new();
    let rec = flat_record();
    let small = record_of(vec![Ty::Prim(PrimTy::U8)]);
    assert!(!reg.declare_outbound(&rec, &small));
}

#[test]
fn redeclaration_is_rejected() {
    let mut reg = Registry::new();
    let rec = flat_record();
    assert!(reg.declare_outbound(&rec, &rec));
    assert!(!reg.declare_outbound(&rec, &rec));
}

#[test]
fn compound_carriers_derive_archetypes_structurally() {
    let mut reg = Registry::new();
    let rec = flat_record();
    assert!(reg.declare_outbound(&rec, &rec));
    let arr = Ty::Array(Box::new(flat_record()), 2);
    let arch = outbound_archetype(&reg, &arr).unwrap();
    assert!(ty_eq(&arch, &arr));
    let undeclared = padded_record();
    assert!(outbound_archetype(&reg, &undeclared).is_none());
}

#[test]
fn padded_record_end_to_end() {
    // A record with byte sizes {1, 2} and one padding byte, declared
    // stability-committed with itself as archetype.
    let mut reg = Registry::new();
    let rec = padded_record();
    assert!(reg.declare_outbound(&rec, &rec));
    assert!(reg.declare_inbound(&rec, &rec));

    // A 4-byte unsigned integer converts into the record under full
    // guarantees, because the integer's bytes satisfy the record's
    // archetype field by field.
    assert!(is_transmutable_into(&reg, &u32_ty(), &rec, &()));
    let v = Value {
        ty: u32_ty(),
        bytes: vec![MemByte::Init(64), MemByte::Init(0), MemByte::Init(0), MemByte::Init(0)],
    };
    let r = safe_transmute(&reg, v, &rec, &());
    assert_eq!(r.bytes.len(), 4);
    assert_eq!(r.bytes[0], MemByte::Init(64));

    // The record does not convert back into the integer without
    // neglecting validity: the padding byte is unconstrained, so not
    // every record instance is a valid integer bit pattern.
    assert!(!is_transmutable_into(&reg, &rec, &u32_ty(), &()));
    assert!(!is_transmutable_into(&reg, &rec, &u32_ty(), &NeglectStability));
    assert!(is_transmutable_into(
        &reg,
        &rec,
        &u32_ty(),
        &(NeglectStability, NeglectValidity)
    ));
    let back = Value {
        ty: padded_record(),
        bytes: vec![MemByte::Init(64), MemByte::Uninit, MemByte::Init(1), MemByte::Init(2)],
    };
    let b = unsafe_transmute(&reg, back, &u32_ty(), &(NeglectStability, NeglectValidity));
    assert_eq!(b.bytes[0], MemByte::Init(64));
    assert_eq!(b.bytes[1], MemByte::Uninit);
}

#[test]
fn undeclared_record_needs_the_stability_waiver() {
    let reg = Registry::new();
    let rec = padded_record();
    assert!(!is_transmutable_into(&reg, &u32_ty(), &rec, &()));
    assert!(is_transmutable_into(&reg, &u32_ty(), &rec, &NeglectStability));
}

#[test]
fn a_distinct_archetype_widens_the_stable_relation() {
    // Two one-byte fields, declared with a single two-byte field as the
    // worst-case future shape.
    let mut reg = Registry::new();
    let pair = record_of(vec![Ty::Prim(PrimTy::U8), Ty::Prim(PrimTy::U8)]);
    let wide = record_of(vec![Ty::Prim(PrimTy::U16)]);
    assert!(reg.declare_outbound(&wide, &wide));
    assert!(reg.declare_outbound(&pair, &wide));
    // Under full guarantees the pair now converts into anything its
    // archetype converts into.
    assert!(is_transmutable_into(&reg, &pair, &Ty::Prim(PrimTy::U16), &()));
}

#[test]
fn an_uncommitted_type_is_not_stably_reflexive() {
    // Reading a value back as its own type needs no layout facts, but
    // under full guarantees it still needs both endpoints committed.
    let reg = Registry::new();
    let rec = padded_record();
    assert!(!is_transmutable_into(&reg, &rec, &rec, &()));
    assert!(is_transmutable_into(&reg, &rec, &rec, &NeglectStability));
}
