use transmutability::MemByte;
use transmutability::NeglectAlignment;
use transmutability::NeglectStability;
use transmutability::NeglectValidity;
use transmutability::PrimTy;
use transmutability::Registry;
use transmutability::SliceVal;
use transmutability::Ty;
use transmutability::UnsafeTransmuteOptions;
use transmutability::VecVal;
use transmutability::Waivers;
use transmutability::cast_slice;
use transmutability::cast_vec;
use transmutability::is_align_eq;
use transmutability::is_align_lt_eq;
use transmutability::is_size_eq;
use transmutability::is_size_lt_eq;
use transmutability::is_slice_castable;
use transmutability::is_vec_castable;
use transmutability::record_of;
use transmutability::size_of;
use transmutability::align_of;
use transmutability::unsafe_cast_slice;
use transmutability::unsafe_cast_vec;

fn prim(p: PrimTy) -> Ty {
    Ty::Prim(p)
}

fn init_bytes(n: usize) -> Vec<MemByte> {
    let mut v = Vec::new();
    let mut i = 0;
    while i < n {
        v.push(MemByte::Init(i as u8));
        i += 1;
    }
    v
}

#[test]
fn primitive_sizes_and_alignments_match_the_host() {
    assert_eq!(size_of(&prim(PrimTy::U8)), 1);
    assert_eq!(size_of(&prim(PrimTy::U16)), 2);
    assert_eq!(size_of(&prim(PrimTy::U32)), 4);
    assert_eq!(size_of(&prim(PrimTy::U64)), 8);
    assert_eq!(size_of(&prim(PrimTy::U128)), 16);
    assert_eq!(size_of(&prim(PrimTy::Usize)), 8);
    assert_eq!(size_of(&prim(PrimTy::Unit)), 0);
    assert_eq!(size_of(&prim(PrimTy::Never)), 0);
    assert_eq!(align_of(&prim(PrimTy::U8)), 1);
    assert_eq!(align_of(&prim(PrimTy::U32)), 4);
    assert_eq!(align_of(&prim(PrimTy::U128)), 16);
    assert_eq!(align_of(&prim(PrimTy::Unit)), 1);
}

#[test]
fn size_query_agrees_with_actual_sizes() {
    let reg = Registry::new();
    assert!(is_size_lt_eq(&reg, &prim(PrimTy::U32), &prim(PrimTy::U64), &NeglectStability));
    assert!(!is_size_lt_eq(&reg, &prim(PrimTy::U64), &prim(PrimTy::U32), &NeglectStability));
    assert!(is_size_lt_eq(&reg, &prim(PrimTy::U32), &prim(PrimTy::U32), &NeglectStability));
    assert!(is_size_eq(&reg, &prim(PrimTy::U32), &prim(PrimTy::I32), &NeglectStability));
    assert!(!is_size_eq(&reg, &prim(PrimTy::U32), &prim(PrimTy::U64), &NeglectStability));
}

#[test]
fn align_query_agrees_with_actual_alignments() {
    let reg = Registry::new();
    assert!(is_align_lt_eq(&reg, &prim(PrimTy::U16), &prim(PrimTy::U32), &NeglectStability));
    assert!(!is_align_lt_eq(&reg, &prim(PrimTy::U32), &prim(PrimTy::U16), &NeglectStability));
    assert!(is_align_eq(&reg, &prim(PrimTy::U64), &prim(PrimTy::Usize), &NeglectStability));
    assert!(!is_align_eq(&reg, &prim(PrimTy::U8), &prim(PrimTy::U16), &NeglectStability));
}

#[test]
fn size_query_sees_through_records() {
    let reg = Registry::new();
    let rec = record_of(vec![prim(PrimTy::U8), prim(PrimTy::U16)]);
    assert!(is_size_eq(&reg, &rec, &prim(PrimTy::U32), &NeglectStability));
    assert!(is_align_lt_eq(&reg, &rec, &prim(PrimTy::U32), &NeglectStability));
    assert!(!is_align_lt_eq(&reg, &prim(PrimTy::U32), &rec, &NeglectStability));
}

#[test]
fn slice_cast_to_half_sized_elements_doubles_the_length() {
    let reg = Registry::new();
    let src = SliceVal { elem: prim(PrimTy::U32), count: 3, data: init_bytes(12) };
    assert!(is_slice_castable(&reg, &prim(PrimTy::U32), &prim(PrimTy::U16), &NeglectStability));
    let r = cast_slice(&reg, &src, &prim(PrimTy::U16), &NeglectStability);
    assert_eq!(r.count, 6);
    assert_eq!(r.data, init_bytes(12));
}

#[test]
fn slice_cast_to_double_sized_elements_halves_the_length() {
    let reg = Registry::new();
    let src = SliceVal { elem: prim(PrimTy::U32), count: 3, data: init_bytes(12) };
    // The destination's alignment is stricter, so the cast lives in the
    // unsafe family: the caller attests to the run's actual alignment.
    assert!(!is_slice_castable(&reg, &prim(PrimTy::U32), &prim(PrimTy::U64), &NeglectStability));
    assert!(is_slice_castable(
        &reg,
        &prim(PrimTy::U32),
        &prim(PrimTy::U64),
        &(NeglectStability, NeglectAlignment)
    ));
    let r = unsafe_cast_slice(
        &reg,
        &src,
        &prim(PrimTy::U64),
        &(NeglectStability, NeglectAlignment),
    );
    // 12 bytes cover one complete 8-byte element; the remainder is
    // unreachable, not an error.
    assert_eq!(r.count, 1);
    assert_eq!(r.data, init_bytes(8));
}

#[test]
fn slice_cast_drops_the_incomplete_tail() {
    let reg = Registry::new();
    let src = SliceVal { elem: prim(PrimTy::U8), count: 7, data: init_bytes(7) };
    let r = cast_slice(&reg, &src, &prim(PrimTy::U16), &NeglectStability);
    assert_eq!(r.count, 3);
    assert_eq!(r.data, init_bytes(6));
}

#[test]
fn slice_cast_to_zero_sized_elements_is_empty() {
    let reg = Registry::new();
    let src = SliceVal { elem: prim(PrimTy::U8), count: 3, data: init_bytes(3) };
    assert!(is_slice_castable(&reg, &prim(PrimTy::U8), &prim(PrimTy::Unit), &NeglectStability));
    let r = cast_slice(&reg, &src, &prim(PrimTy::Unit), &NeglectStability);
    assert_eq!(r.count, 0);
    assert_eq!(r.data.len(), 0);
}

#[test]
fn vec_cast_preserves_count_and_capacity() {
    let reg = Registry::new();
    let src = VecVal { elem: prim(PrimTy::U32), count: 2, capacity: 8, data: init_bytes(8) };
    assert!(is_vec_castable(&reg, &prim(PrimTy::U32), &prim(PrimTy::I32), &NeglectStability));
    let r = cast_vec(&reg, src, &prim(PrimTy::I32), &NeglectStability);
    assert_eq!(r.count, 2);
    assert_eq!(r.capacity, 8);
    assert_eq!(r.data, init_bytes(8));
}

#[test]
fn vec_cast_into_compatible_record_elements() {
    let reg = Registry::new();
    let rec = record_of(vec![prim(PrimTy::U32)]);
    assert!(is_vec_castable(&reg, &prim(PrimTy::U32), &rec, &NeglectStability));
    let src = VecVal { elem: prim(PrimTy::U32), count: 2, capacity: 4, data: init_bytes(8) };
    let r = cast_vec(&reg, src, &rec, &NeglectStability);
    assert_eq!(r.count, 2);
    assert_eq!(r.capacity, 4);
}

#[test]
fn vec_cast_with_unequal_element_size_is_rejected() {
    let reg = Registry::new();
    assert!(!is_vec_castable(&reg, &prim(PrimTy::U32), &prim(PrimTy::U16), &NeglectStability));
    assert!(!is_vec_castable(
        &reg,
        &prim(PrimTy::U32),
        &prim(PrimTy::U16),
        &(NeglectStability, NeglectAlignment, NeglectValidity)
    ));
}

#[test]
fn option_markers_denote_their_waiver_sets() {
    assert_eq!(
        ().waiver_set(),
        Waivers { stability: false, alignment: false, validity: false }
    );
    assert_eq!(
        NeglectStability.waiver_set(),
        Waivers { stability: true, alignment: false, validity: false }
    );
    assert_eq!(
        NeglectAlignment.waiver_set(),
        Waivers { stability: false, alignment: true, validity: false }
    );
    assert_eq!(
        NeglectValidity.waiver_set(),
        Waivers { stability: false, alignment: false, validity: true }
    );
    assert_eq!(
        (NeglectStability, NeglectAlignment).waiver_set(),
        Waivers { stability: true, alignment: true, validity: false }
    );
    assert_eq!(
        (NeglectStability, NeglectValidity).waiver_set(),
        Waivers { stability: true, alignment: false, validity: true }
    );
    assert_eq!(
        (NeglectAlignment, NeglectValidity).waiver_set(),
        Waivers { stability: false, alignment: true, validity: true }
    );
    assert_eq!(
        (NeglectStability, NeglectAlignment, NeglectValidity).waiver_set(),
        Waivers { stability: true, alignment: true, validity: true }
    );
}

#[test]
fn cast_methods_mirror_the_free_functions() {
    let reg = Registry::new();
    let run = SliceVal { elem: prim(PrimTy::U16), count: 2, data: init_bytes(4) };
    let r = run.cast_into(&reg, &prim(PrimTy::U8), &NeglectStability);
    assert_eq!(r.count, 4);
    let buf = VecVal { elem: prim(PrimTy::U16), count: 2, capacity: 3, data: init_bytes(4) };
    let b = buf.cast_into(&reg, &prim(PrimTy::I16), &NeglectStability);
    assert_eq!(b.count, 2);
    assert_eq!(b.capacity, 3);
}

#[test]
fn unsafe_vec_cast_accepts_unsafe_options() {
    let reg = Registry::new();
    let buf = VecVal { elem: prim(PrimTy::U32), count: 1, capacity: 2, data: init_bytes(4) };
    let b = unsafe_cast_vec(
        &reg,
        buf,
        &prim(PrimTy::I32),
        &(NeglectStability, NeglectValidity),
    );
    assert_eq!(b.count, 1);
    assert_eq!(b.capacity, 2);
    assert_eq!(b.data, init_bytes(4));
}

#[test]
fn vec_cast_with_unequal_alignment_is_rejected_despite_waivers() {
    // Equal size, unequal alignment: a buffer of u32 cannot become a
    // buffer of a two-u16 record, because one capacity must describe both
    // storages — and no waiver lifts that.
    let reg = Registry::new();
    let rec = record_of(vec![prim(PrimTy::U16), prim(PrimTy::U16)]);
    assert_eq!(size_of(&rec), 4);
    assert_eq!(align_of(&rec), 2);
    assert!(!is_vec_castable(
        &reg,
        &prim(PrimTy::U32),
        &rec,
        &(NeglectStability, NeglectAlignment)
    ));
    assert!(!is_vec_castable(
        &reg,
        &prim(PrimTy::U32),
        &rec,
        &(NeglectStability, NeglectAlignment, NeglectValidity)
    ));
    // With equal alignment the same waiver set is accepted.
    assert!(is_vec_castable(
        &reg,
        &prim(PrimTy::U32),
        &prim(PrimTy::I32),
        &(NeglectStability, NeglectAlignment)
    ));
}

#[test]
fn unsafe_cast_into_methods_mirror_the_free_functions() {
    let reg = Registry::new();
    let run = SliceVal { elem: prim(PrimTy::U32), count: 2, data: init_bytes(8) };
    let r = run.unsafe_cast_into(
        &reg,
        &prim(PrimTy::U64),
        &(NeglectStability, NeglectAlignment),
    );
    assert_eq!(r.count, 1);
    assert_eq!(r.data, init_bytes(8));
    let buf = VecVal { elem: prim(PrimTy::U32), count: 1, capacity: 5, data: init_bytes(4) };
    let b = buf.unsafe_cast_into(
        &reg,
        &prim(PrimTy::I32),
        &(NeglectStability, NeglectValidity),
    );
    assert_eq!(b.count, 1);
    assert_eq!(b.capacity, 5);
}
