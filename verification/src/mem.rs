//! Derived layout queries: alignment and size comparison expressed through
//! the compatibility relation itself, by building carriers that neutralize
//! every layout property but the one compared.
//!
//! A zero-length sequence of a type carries only its alignment. Wrapping a
//! type's uninitialized-capable slot together with a zero-length sequence
//! of the other candidate shares the larger alignment and neutralizes
//! validity, leaving size as the only discriminator. No second layout
//! introspection subsystem exists: the relation answers.

use vstd::prelude::*;

use crate::options::UnsafeTransmuteOptions;
use crate::options::Waivers;
use crate::relation::lemma_ref_size_bound;
use crate::relation::place_bytes_ok;
use crate::relation::place_ok;
use crate::relation::structural;
use crate::stability::Registry;
use crate::stability::in_arch;
use crate::stability::lemma_in_arch_sound;
use crate::stability::lemma_out_arch_sound;
use crate::stability::out_arch;
use crate::stability::reg_wf;
use crate::transmute::check_transmutable_from;
use crate::transmute::is_transmutable_from;
use crate::transmute::transmutable_from;
use crate::ty::ByteKind;
use crate::ty::Fields;
use crate::ty::Ty;
use crate::ty::clone_ty;
use crate::ty::fields_align;
use crate::ty::fields_end;
use crate::ty::fields_vbytes;
use crate::ty::fields_wf;
use crate::ty::lemma_align_pos;
use crate::ty::lemma_vbytes_len;
use crate::ty::round_up;
use crate::ty::lemma_wf_size_bound;
use crate::ty::ty_align;
use crate::ty::ty_size;
use crate::ty::ty_vbytes;
use crate::ty::ty_wf;

verus! {

/// A zero-length sequence of `t`: no size, no validity constraints, only
/// `t`'s alignment.
pub open spec fn align_gadget(t: Ty) -> Ty {
    Ty::Array(Box::new(t), 0)
}

/// A carrier over `a` and `t` whose alignment is the larger of the two,
/// whose validity is fully neutral, and whose size is exactly `t`'s.
pub open spec fn aligned_gadget(a: Ty, t: Ty) -> Ty {
    Ty::Record(
        Fields::Cons(
            Box::new(Ty::Array(Box::new(a), 0)),
            Box::new(Fields::Cons(Box::new(Ty::Uninit(Box::new(t))), Box::new(Fields::Nil))),
        ),
    )
}

/// The zero-length gadget erases everything but alignment.
pub proof fn lemma_align_gadget_facts(t: Ty)
    ensures
        ty_size(align_gadget(t)) == 0,
        ty_align(align_gadget(t)) == ty_align(t),
        ty_vbytes(align_gadget(t)) =~= Seq::<ByteKind>::empty(),
        ty_wf(t) ==> ty_wf(align_gadget(t)),
{
    assert(0int * ty_size(t) == 0) by (nonlinear_arith);
}

/// The aligned gadget shares the larger alignment, neutralizes validity,
/// and keeps exactly the wrapped type's size.
pub proof fn lemma_aligned_gadget_facts(a: Ty, t: Ty)
    ensures
        ty_size(aligned_gadget(a, t)) == ty_size(t),
        ty_align(aligned_gadget(a, t)) == (if ty_align(a) >= ty_align(t) {
            ty_align(a)
        } else {
            ty_align(t)
        }),
        ty_vbytes(aligned_gadget(a, t)) =~= Seq::new(ty_size(t), |i: int| ByteKind::Uninit),
        (ty_wf(a) && ty_wf(t)) ==> ty_wf(aligned_gadget(a, t)),
{
    lemma_align_pos(a);
    lemma_align_pos(t);
    lemma_align_gadget_facts(a);
    lemma_vbytes_len(t);
    if ty_wf(t) {
        lemma_wf_size_bound(t);
    }
    let g = aligned_gadget(a, t);
    let aa = ty_align(a);
    let ta = ty_align(t);
    assert(aa % aa == 0) by (nonlinear_arith)
        requires
            aa >= 1,
    ;
    assert(ta % ta == 0) by (nonlinear_arith)
        requires
            ta >= 1,
    ;
    assert((aa - 0nat % aa) % (aa as int) == 0);
    assert((ta - 0nat % ta) % (ta as int) == 0);
    let f2 = Fields::Cons(Box::new(Ty::Uninit(Box::new(t))), Box::new(Fields::Nil));
    let f1 = Fields::Cons(Box::new(Ty::Array(Box::new(a), 0)), Box::new(f2));
    assert(aligned_gadget(a, t) == Ty::Record(f1));
    assert(ty_align(Ty::Uninit(Box::new(t))) == ta);
    assert(ty_size(Ty::Uninit(Box::new(t))) == ty_size(t));
    assert(ty_vbytes(Ty::Uninit(Box::new(t))) == Seq::new(ty_size(t), |i: int| ByteKind::Uninit));
    assert(ty_align(Ty::Array(Box::new(a), 0)) == aa);
    assert(fields_align(Fields::Nil) == 1);
    assert(fields_align(f2) == if ta >= 1 {
        ta
    } else {
        1nat
    });
    assert(fields_align(f1) == if aa >= ta {
        aa
    } else {
        ta
    });
    assert(round_up(0, aa) == 0);
    assert(round_up(0, ta) == 0);
    assert(fields_end(Fields::Nil, ty_size(t)) == ty_size(t));
    assert(fields_end(f2, 0) == ty_size(t));
    assert(fields_end(f1, 0) == ty_size(t));
    assert(fields_vbytes(Fields::Nil, ty_size(t)) =~= Seq::<ByteKind>::empty());
    assert(fields_vbytes(f2, 0) =~= Seq::new(ty_size(t), |i: int| ByteKind::Uninit));
    assert(fields_vbytes(f1, 0) =~= Seq::new(ty_size(t), |i: int| ByteKind::Uninit));
    if ty_wf(a) && ty_wf(t) {
        assert(0int * ty_size(a) == 0) by (nonlinear_arith);
        assert(ty_wf(Ty::Array(Box::new(a), 0)));
        assert(ty_wf(Ty::Uninit(Box::new(t))));
        assert(fields_wf(Fields::Nil));
        assert(fields_wf(f2));
        assert(fields_wf(f1));
        assert(ty_wf(Ty::Record(f1)));
    }
}

/// The alignment query: `lhs`'s alignment is no greater than `rhs`'s,
/// asked by converting a reference to a zero-length sequence of `rhs`
/// into a reference to a zero-length sequence of `lhs`.
pub open spec fn align_lt_eq(reg: Registry, lhs: Ty, rhs: Ty, w: Waivers) -> bool {
    transmutable_from(
        reg,
        Ty::Ref(Box::new(align_gadget(lhs))),
        Ty::Ref(Box::new(align_gadget(rhs))),
        w,
    )
}

/// The alignment equality query: alignment-below in both directions.
pub open spec fn align_eq(reg: Registry, lhs: Ty, rhs: Ty, w: Waivers) -> bool {
    align_lt_eq(reg, lhs, rhs, w) && align_lt_eq(reg, rhs, lhs, w)
}

/// The size query: `lhs`'s size is no greater than `rhs`'s, asked by
/// converting a reference between the two mirrored aligned gadgets.
pub open spec fn size_lt_eq(reg: Registry, lhs: Ty, rhs: Ty, w: Waivers) -> bool {
    transmutable_from(
        reg,
        Ty::Ref(Box::new(aligned_gadget(rhs, lhs))),
        Ty::Ref(Box::new(aligned_gadget(lhs, rhs))),
        w,
    )
}

/// The size equality query: size-below in both directions.
pub open spec fn size_eq(reg: Registry, lhs: Ty, rhs: Ty, w: Waivers) -> bool {
    size_lt_eq(reg, lhs, rhs, w) && size_lt_eq(reg, rhs, lhs, w)
}

/// Law: with stability waived and alignment checked, the alignment query
/// answers exactly the comparison of the two actual alignments.
pub proof fn lemma_align_query_consistent(reg: Registry, lhs: Ty, rhs: Ty, w: Waivers)
    requires
        reg_wf(reg),
        w.stability,
        !w.alignment,
    ensures
        align_lt_eq(reg, lhs, rhs, w) <==> ty_align(lhs) <= ty_align(rhs),
{
    let src = Ty::Ref(Box::new(align_gadget(rhs)));
    let dst = Ty::Ref(Box::new(align_gadget(lhs)));
    lemma_align_gadget_facts(lhs);
    lemma_align_gadget_facts(rhs);
    if ty_align(lhs) <= ty_align(rhs) {
        assert(place_bytes_ok(align_gadget(rhs), align_gadget(lhs), w));
        assert(place_ok(align_gadget(rhs), align_gadget(lhs), w, true));
        assert(structural(src, dst, w));
    }
    if align_lt_eq(reg, lhs, rhs, w) {
        if w.stability && structural(src, dst, w) {
            if src == dst {
            } else {
                assert(place_ok(align_gadget(rhs), align_gadget(lhs), w, true));
            }
        } else {
            let a_s = out_arch(reg, src)->0;
            let a_d = in_arch(reg, dst)->0;
            lemma_out_arch_sound(reg, src, a_s);
            lemma_in_arch_sound(reg, dst, a_d);
            let arr_s = out_arch(reg, align_gadget(rhs))->0;
            let arr_d = in_arch(reg, align_gadget(lhs))->0;
            assert(a_s == Ty::Ref(Box::new(arr_s)));
            assert(a_d == Ty::Ref(Box::new(arr_d)));
            lemma_ref_align_bound(src, a_s, Waivers::stability_only());
            lemma_ref_align_bound(a_s, a_d, w.with_stability());
            lemma_ref_align_bound(a_d, dst, Waivers::stability_only());
        }
    }
}

/// A structural conversion between references never strengthens the
/// referent's alignment, as long as alignment is checked.
proof fn lemma_ref_align_bound(src: Ty, dst: Ty, w: Waivers)
    requires
        structural(src, dst, w),
        !w.alignment,
        src is Ref,
        dst is Ref,
    ensures
        ty_align(*dst->Ref_0) <= ty_align(*src->Ref_0),
{
    if src == dst {
    } else {
        assert(place_ok(*src->Ref_0, *dst->Ref_0, w, true));
    }
}

/// A positive size query is sound under any waiver set: the left type's
/// size really is no greater than the right's.
pub proof fn lemma_size_le_sound(reg: Registry, lhs: Ty, rhs: Ty, w: Waivers)
    requires
        reg_wf(reg),
        size_lt_eq(reg, lhs, rhs, w),
    ensures
        ty_size(lhs) <= ty_size(rhs),
{
    let g_src = aligned_gadget(lhs, rhs);
    let g_dst = aligned_gadget(rhs, lhs);
    let src = Ty::Ref(Box::new(g_src));
    let dst = Ty::Ref(Box::new(g_dst));
    lemma_aligned_gadget_facts(lhs, rhs);
    lemma_aligned_gadget_facts(rhs, lhs);
    if w.stability && structural(src, dst, w) {
        lemma_ref_size_bound(src, dst, w);
    } else {
        let a_s = out_arch(reg, src)->0;
        let a_d = in_arch(reg, dst)->0;
        lemma_out_arch_sound(reg, src, a_s);
        lemma_in_arch_sound(reg, dst, a_d);
        lemma_ref_size_bound(src, a_s, Waivers::stability_only());
        lemma_ref_size_bound(a_s, a_d, w.with_stability());
        lemma_ref_size_bound(a_d, dst, Waivers::stability_only());
    }
}

/// Law: with stability waived, the size query answers exactly the
/// comparison of the two actual sizes.
pub proof fn lemma_size_query_consistent(reg: Registry, lhs: Ty, rhs: Ty, w: Waivers)
    requires
        reg_wf(reg),
        w.stability,
    ensures
        size_lt_eq(reg, lhs, rhs, w) <==> ty_size(lhs) <= ty_size(rhs),
{
    let g_src = aligned_gadget(lhs, rhs);
    let g_dst = aligned_gadget(rhs, lhs);
    let src = Ty::Ref(Box::new(g_src));
    let dst = Ty::Ref(Box::new(g_dst));
    lemma_aligned_gadget_facts(lhs, rhs);
    lemma_aligned_gadget_facts(rhs, lhs);
    if ty_size(lhs) <= ty_size(rhs) {
        assert(crate::ty::bytes_fit(ty_vbytes(g_dst), ty_vbytes(g_src)));
        assert(place_bytes_ok(g_src, g_dst, w));
        assert(place_ok(g_src, g_dst, w, true));
        assert(structural(src, dst, w));
    }
    if size_lt_eq(reg, lhs, rhs, w) {
        lemma_size_le_sound(reg, lhs, rhs, w);
    }
}

/// Decides the alignment query for a waiver set given as a value.
pub(crate) fn check_align_lt_eq(reg: &Registry, lhs: &Ty, rhs: &Ty, w: Waivers) -> (r: bool)
    requires
        reg_wf(*reg),
        ty_wf(*lhs),
        ty_wf(*rhs),
    ensures
        r == align_lt_eq(*reg, *lhs, *rhs, w),
{
    proof {
        lemma_align_gadget_facts(*lhs);
        lemma_align_gadget_facts(*rhs);
    }
    let dst = Ty::Ref(Box::new(Ty::Array(Box::new(clone_ty(lhs)), 0)));
    let src = Ty::Ref(Box::new(Ty::Array(Box::new(clone_ty(rhs)), 0)));
    check_transmutable_from(reg, &dst, &src, w)
}

/// Decides the alignment equality query for a waiver set given as a
/// value.
pub(crate) fn check_align_eq(reg: &Registry, lhs: &Ty, rhs: &Ty, w: Waivers) -> (r: bool)
    requires
        reg_wf(*reg),
        ty_wf(*lhs),
        ty_wf(*rhs),
    ensures
        r == align_eq(*reg, *lhs, *rhs, w),
{
    check_align_lt_eq(reg, lhs, rhs, w) && check_align_lt_eq(reg, rhs, lhs, w)
}

/// Decides the alignment query.
pub fn is_align_lt_eq<N: UnsafeTransmuteOptions>(
    reg: &Registry,
    lhs: &Ty,
    rhs: &Ty,
    neglect: &N,
) -> (r: bool)
    requires
        reg_wf(*reg),
        ty_wf(*lhs),
        ty_wf(*rhs),
    ensures
        r == align_lt_eq(*reg, *lhs, *rhs, neglect.waivers()),
{
    check_align_lt_eq(reg, lhs, rhs, neglect.waiver_set())
}

/// Decides the alignment equality query.
pub fn is_align_eq<N: UnsafeTransmuteOptions>(reg: &Registry, lhs: &Ty, rhs: &Ty, neglect: &N) -> (r:
    bool)
    requires
        reg_wf(*reg),
        ty_wf(*lhs),
        ty_wf(*rhs),
    ensures
        r == align_eq(*reg, *lhs, *rhs, neglect.waivers()),
{
    check_align_eq(reg, lhs, rhs, neglect.waiver_set())
}

/// Builds the aligned gadget for two well-formed types.
fn build_aligned_gadget(a: &Ty, t: &Ty) -> (g: Ty)
    requires
        ty_wf(*a),
        ty_wf(*t),
    ensures
        g == aligned_gadget(*a, *t),
        ty_wf(g),
{
    proof {
        lemma_aligned_gadget_facts(*a, *t);
    }
    Ty::Record(
        Fields::Cons(
            Box::new(Ty::Array(Box::new(clone_ty(a)), 0)),
            Box::new(
                Fields::Cons(Box::new(Ty::Uninit(Box::new(clone_ty(t)))), Box::new(Fields::Nil)),
            ),
        ),
    )
}

/// Decides the size query.
pub fn is_size_lt_eq<N: UnsafeTransmuteOptions>(
    reg: &Registry,
    lhs: &Ty,
    rhs: &Ty,
    neglect: &N,
) -> (r: bool)
    requires
        reg_wf(*reg),
        ty_wf(*lhs),
        ty_wf(*rhs),
    ensures
        r == size_lt_eq(*reg, *lhs, *rhs, neglect.waivers()),
{
    let dst = Ty::Ref(Box::new(build_aligned_gadget(rhs, lhs)));
    let src = Ty::Ref(Box::new(build_aligned_gadget(lhs, rhs)));
    is_transmutable_from(reg, &dst, &src, neglect)
}

/// Decides the size equality query.
pub fn is_size_eq<N: UnsafeTransmuteOptions>(reg: &Registry, lhs: &Ty, rhs: &Ty, neglect: &N) -> (r:
    bool)
    requires
        reg_wf(*reg),
        ty_wf(*lhs),
        ty_wf(*rhs),
    ensures
        r == size_eq(*reg, *lhs, *rhs, neglect.waivers()),
{
    is_size_lt_eq(reg, lhs, rhs, neglect) && is_size_lt_eq(reg, rhs, lhs, neglect)
}

} // verus!
